//! Options of the node commands.

use vstd::prelude::*;
use crate::app::models::{CreateContainerType, ListOptions};

verus! {

/// Options of the copy command (it has none).
#[derive(Debug, Clone, Copy, PartialEq, Eq, Structural)]
pub struct CmdCopyOptions;

impl CmdCopyOptions {
    pub fn new() -> (o: Self)
        ensures
            o == CmdCopyOptions,
    {
        CmdCopyOptions
    }
}

/// Options of the delete command.
#[derive(Debug, Clone, Copy, PartialEq, Eq, Structural)]
pub struct CmdDeleteOptions {
    recursive: bool,
}

impl CmdDeleteOptions {
    pub closed spec fn recursive_view(&self) -> bool {
        self.recursive
    }

    pub fn new(recursive: bool) -> (o: Self)
        ensures
            o.recursive_view() == recursive,
    {
        CmdDeleteOptions { recursive }
    }

    pub fn recursive(&self) -> (r: bool)
        ensures
            r == self.recursive_view(),
    {
        self.recursive
    }
}

/// Options of the commands that create folders and rooms.
#[derive(Debug, Clone)]
pub struct CmdCreateContainerOptions {
    pub container_type: CreateContainerType,
    pub classification: Option<u8>,
    pub notes: Option<String>,
    pub admin_users: Option<Vec<String>>,
    pub inherit_permissions: bool,
}

impl CmdCreateContainerOptions {
    pub fn new(container_type: CreateContainerType, classification: Option<u8>, notes: Option<String>, admin_users: Option<Vec<String>>, inherit_permissions: bool) -> (o: Self)
        ensures
            o == (CmdCreateContainerOptions { container_type, classification, notes, admin_users, inherit_permissions }),
    {
        CmdCreateContainerOptions { container_type, classification, notes, admin_users, inherit_permissions }
    }
}

/// Options of the download command.
#[derive(Debug, Clone)]
pub struct CmdDownloadOptions {
    pub recursive: bool,
    pub velocity: Option<u8>,
    pub share_password: Option<String>,
    pub include_rooms: bool,
}

impl CmdDownloadOptions {
    pub fn new(recursive: bool, velocity: Option<u8>, share_password: Option<String>, include_rooms: bool) -> (o: Self)
        ensures
            o == (CmdDownloadOptions { recursive, velocity, share_password, include_rooms }),
    {
        CmdDownloadOptions { recursive, velocity, share_password, include_rooms }
    }
}

/// Options of the upload command.
#[derive(Debug, Clone)]
pub struct CmdUploadOptions {
    pub overwrite: bool,
    pub keep_share_links: bool,
    pub recursive: bool,
    pub skip_root: bool,
    pub share: bool,
    pub classification: Option<u8>,
    pub velocity: Option<u8>,
    pub share_password: Option<String>,
}

impl CmdUploadOptions {
    pub fn new(overwrite: bool, keep_share_links: bool, recursive: bool, skip_root: bool, share: bool, classification: Option<u8>, velocity: Option<u8>, share_password: Option<String>) -> (o: Self)
        ensures
            o == (CmdUploadOptions { overwrite, keep_share_links, recursive, skip_root, share, classification, velocity, share_password }),
    {
        CmdUploadOptions { overwrite, keep_share_links, recursive, skip_root, share, classification, velocity, share_password }
    }
}

/// Options of the list command.
#[derive(Debug, Clone)]
pub struct CmdListNodesOptions {
    list_opts: ListOptions,
    human_readable: bool,
    long: bool,
    managed: bool,
}

impl CmdListNodesOptions {
    pub closed spec fn list_opts_view(&self) -> ListOptions {
        self.list_opts
    }

    pub closed spec fn human_readable_view(&self) -> bool {
        self.human_readable
    }

    pub closed spec fn long_view(&self) -> bool {
        self.long
    }

    pub closed spec fn managed_view(&self) -> bool {
        self.managed
    }

    pub fn new(list_opts: ListOptions, human_readable: bool, long: bool, managed: bool) -> (o: Self)
        ensures
            o.list_opts_view() == list_opts,
            o.human_readable_view() == human_readable,
            o.long_view() == long,
            o.managed_view() == managed,
    {
        CmdListNodesOptions { list_opts, human_readable, long, managed }
    }

    pub fn list_opts(&self) -> (o: &ListOptions)
        ensures
            *o == self.list_opts_view(),
    {
        &self.list_opts
    }

    pub fn human_readable(&self) -> (b: bool)
        ensures
            b == self.human_readable_view(),
    {
        self.human_readable
    }

    pub fn long(&self) -> (b: bool)
        ensures
            b == self.long_view(),
    {
        self.long
    }

    pub fn managed(&self) -> (b: bool)
        ensures
            b == self.managed_view(),
    {
        self.managed
    }
}

/// Options of the transfer command.
#[derive(Debug, Clone)]
pub struct CmdTransferOptions {
    pub overwrite: bool,
    pub keep_share_links: bool,
    pub share: bool,
    pub classification: Option<u8>,
    pub share_password: Option<String>,
}

impl CmdTransferOptions {
    pub fn new(overwrite: bool, keep_share_links: bool, share: bool, classification: Option<u8>, share_password: Option<String>) -> (o: Self)
        ensures
            o == (CmdTransferOptions { overwrite, keep_share_links, share, classification, share_password }),
    {
        CmdTransferOptions { overwrite, keep_share_links, share, classification, share_password }
    }
}

} // verus!

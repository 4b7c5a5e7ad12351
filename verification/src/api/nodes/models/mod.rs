//! Models of nodes (rooms, folders and files) and of the requests that
//! create, change, move and upload them.

pub mod filters;
pub mod sorts;

use vstd::prelude::*;
use crate::api::models::{ObjectExpiration, Range};
use crate::api::auth::models::DracoonErrorResponse;
use crate::text::string_of;

verus! {

/// The kind of a node.
#[derive(Debug, Clone, Copy, PartialEq, Eq, Structural)]
pub enum NodeType {
    Room,
    Folder,
    File,
}

/// The name of a node type in the API.
pub open spec fn node_type_spec(t: NodeType) -> Seq<char> {
    match t {
        NodeType::Room => "room"@,
        NodeType::Folder => "folder"@,
        NodeType::File => "file"@,
    }
}

impl NodeType {
    /// The name of the node type as the API writes it.
    pub fn to_api_string(&self) -> (r: String)
        ensures
            r@ == node_type_spec(*self),
    {
        match self {
            NodeType::Room => "room".to_owned(),
            NodeType::Folder => "folder".to_owned(),
            NodeType::File => "file".to_owned(),
        }
    }
}

/// A user as nodes name their creator or last editor.
#[derive(Debug, Clone)]
pub struct UserInfo {
    pub id: u64,
    pub user_type: String,
    pub avatar_uuid: String,
    pub first_name: Option<String>,
    pub last_name: Option<String>,
    pub email: Option<String>,
}

/// The state of the rescue keys of an encrypted node.
#[derive(Debug, Clone)]
pub struct EncryptionInfo {
    pub user_key_state: String,
    pub room_key_state: String,
    pub data_space_key_state: String,
}

/// The permissions a user holds on a node.
#[derive(Debug, Clone, Copy, PartialEq, Eq, Structural)]
pub struct NodePermissions {
    pub manage: bool,
    pub read: bool,
    pub create: bool,
    pub change: bool,
    pub delete: bool,
    pub manage_download_share: bool,
    pub manage_upload_share: bool,
    pub read_recycle_bin: bool,
    pub restore_recycle_bin: bool,
    pub delete_recycle_bin: bool,
}

/// The letter of a held permission, a dash for a missing one.
pub open spec fn perm_char(flag: bool, c: char) -> char {
    if flag {
        c
    } else {
        '-'
    }
}

/// The permissions as listings show them: `mrwcd` for manage, read, create,
/// change and delete, a dash, then `mmrrd` for managing download and upload
/// shares and reading, restoring and deleting in the recycle bin; a missing
/// permission shows as `-`.
pub open spec fn node_permissions_spec(p: NodePermissions) -> Seq<char> {
    seq![
        perm_char(p.manage, 'm'),
        perm_char(p.read, 'r'),
        perm_char(p.create, 'w'),
        perm_char(p.change, 'c'),
        perm_char(p.delete, 'd'),
        '-',
        perm_char(p.manage_download_share, 'm'),
        perm_char(p.manage_upload_share, 'm'),
        perm_char(p.read_recycle_bin, 'r'),
        perm_char(p.restore_recycle_bin, 'r'),
        perm_char(p.delete_recycle_bin, 'd'),
    ]
}

fn flag_char(flag: bool, c: char) -> (r: char)
    ensures
        r == perm_char(flag, c),
{
    if flag {
        c
    } else {
        '-'
    }
}

/// Each position of the listing form shows its own permission: manage,
/// read, create (`w`), change (`c`), delete, a dash, then managing download
/// and upload shares and reading, restoring and deleting in the recycle bin;
/// a position shows its letter exactly when its permission is held.
pub proof fn lemma_permissions_positions(p: NodePermissions)
    ensures
        node_permissions_spec(p).len() == 11,
        node_permissions_spec(p)[0] == (if p.manage { 'm' } else { '-' }),
        node_permissions_spec(p)[1] == (if p.read { 'r' } else { '-' }),
        node_permissions_spec(p)[2] == (if p.create { 'w' } else { '-' }),
        node_permissions_spec(p)[3] == (if p.change { 'c' } else { '-' }),
        node_permissions_spec(p)[4] == (if p.delete { 'd' } else { '-' }),
        node_permissions_spec(p)[5] == '-',
        node_permissions_spec(p)[6] == (if p.manage_download_share { 'm' } else { '-' }),
        node_permissions_spec(p)[7] == (if p.manage_upload_share { 'm' } else { '-' }),
        node_permissions_spec(p)[8] == (if p.read_recycle_bin { 'r' } else { '-' }),
        node_permissions_spec(p)[9] == (if p.restore_recycle_bin { 'r' } else { '-' }),
        node_permissions_spec(p)[10] == (if p.delete_recycle_bin { 'd' } else { '-' }),
{
}

impl NodePermissions {
    /// The permissions in their listing form (see `node_permissions_spec`):
    /// each position shows its own permission's letter, or a dash.
    pub fn to_string(&self) -> (r: String)
        ensures
            r@ == node_permissions_spec(*self),
            r@.len() == 11,
            r@[0] == (if self.manage { 'm' } else { '-' }),
            r@[1] == (if self.read { 'r' } else { '-' }),
            r@[2] == (if self.create { 'w' } else { '-' }),
            r@[3] == (if self.change { 'c' } else { '-' }),
            r@[4] == (if self.delete { 'd' } else { '-' }),
            r@[5] == '-',
            r@[6] == (if self.manage_download_share { 'm' } else { '-' }),
            r@[7] == (if self.manage_upload_share { 'm' } else { '-' }),
            r@[8] == (if self.read_recycle_bin { 'r' } else { '-' }),
            r@[9] == (if self.restore_recycle_bin { 'r' } else { '-' }),
            r@[10] == (if self.delete_recycle_bin { 'd' } else { '-' }),
    {
        proof {
            lemma_permissions_positions(*self);
        }
        let mut v: Vec<char> = Vec::new();
        v.push(flag_char(self.manage, 'm'));
        v.push(flag_char(self.read, 'r'));
        v.push(flag_char(self.create, 'w'));
        v.push(flag_char(self.change, 'c'));
        v.push(flag_char(self.delete, 'd'));
        v.push('-');
        v.push(flag_char(self.manage_download_share, 'm'));
        v.push(flag_char(self.manage_upload_share, 'm'));
        v.push(flag_char(self.read_recycle_bin, 'r'));
        v.push(flag_char(self.restore_recycle_bin, 'r'));
        v.push(flag_char(self.delete_recycle_bin, 'd'));
        assert(v@ =~= node_permissions_spec(*self));
        string_of(v.as_slice())
    }
}

/// A node: a room, a folder or a file.
#[derive(Debug, Clone)]
pub struct Node {
    pub id: u64,
    pub reference_id: Option<u64>,
    pub node_type: NodeType,
    pub name: String,
    pub timestamp_creation: Option<String>,
    pub timestamp_modification: Option<String>,
    pub parent_id: Option<u64>,
    pub created_at: Option<String>,
    pub created_by: Option<UserInfo>,
    pub updated_at: Option<String>,
    pub updated_by: Option<UserInfo>,
    pub expire_at: Option<String>,
    pub hash: Option<String>,
    pub file_type: Option<String>,
    pub media_type: Option<String>,
    pub size: Option<u64>,
    pub classification: Option<u64>,
    pub notes: Option<String>,
    pub permissions: Option<NodePermissions>,
    pub inherit_permissions: Option<bool>,
    pub is_encrypted: Option<bool>,
    pub encryption_info: Option<EncryptionInfo>,
    pub cnt_deleted_versions: Option<u64>,
    pub cnt_comments: Option<u64>,
    pub cnt_upload_shares: Option<u64>,
    pub cnt_download_shares: Option<u64>,
    pub recycle_bin_retention_period: Option<u64>,
    pub has_activities_log: Option<bool>,
    pub quota: Option<u64>,
    pub is_favorite: Option<bool>,
    pub branch_version: Option<u64>,
    pub media_token: Option<String>,
    pub is_browsable: Option<bool>,
    pub cnt_rooms: Option<u64>,
    pub cnt_folders: Option<u64>,
    pub cnt_files: Option<u64>,
    pub auth_parent_id: Option<u64>,
    pub parent_path: Option<String>,
}

/// One page of nodes.
#[derive(Debug, Clone)]
pub struct NodeList {
    pub range: Range,
    pub items: Vec<Node>,
}

/// The url to download a file from.
#[derive(Debug, Clone)]
pub struct DownloadUrlResponse {
    pub download_url: String,
}

/// The error body S3 answers with.
#[derive(Debug, Clone)]
pub struct S3XmlError {
    pub code: Option<String>,
    pub request_id: Option<String>,
    pub host_id: Option<String>,
    pub message: Option<String>,
    pub argument_name: Option<String>,
}

/// The answer to opening an upload channel.
#[derive(Debug, Clone)]
pub struct CreateFileUploadResponse {
    pub upload_url: Option<String>,
    pub upload_id: String,
    pub token: Option<String>,
}

/// A presigned url for one part of an S3 upload.
#[derive(Debug, Clone)]
pub struct PresignedUrl {
    pub url: String,
    pub part_number: u32,
}

/// The presigned urls for a range of parts.
#[derive(Debug, Clone)]
pub struct PresignedUrlList {
    pub urls: Vec<PresignedUrl>,
}

/// The state of an S3 upload.
#[derive(Debug, Clone, Copy, PartialEq, Eq, Structural)]
pub enum S3UploadStatus {
    Transfer,
    Finishing,
    Done,
    Error,
}

/// The state of an S3 upload, with the node once it is done and the error
/// once it failed.
#[derive(Debug, Clone)]
pub struct S3FileUploadStatus {
    pub status: S3UploadStatus,
    pub node: Option<Node>,
    pub error_details: Option<DracoonErrorResponse>,
}

/// What happens when an upload meets a node of the same name.
#[derive(Debug, Clone, Copy, PartialEq, Eq, Structural)]
pub enum ResolutionStrategy {
    AutoRename,
    Overwrite,
    Fail,
}

/// Expiration, classification, share link and conflict options of an upload.
#[derive(Debug, Clone, Default)]
pub struct UploadOptions(
    pub Option<ObjectExpiration>,
    pub Option<u8>,
    pub Option<bool>,
    pub Option<ResolutionStrategy>,
);

impl UploadOptions {
    pub fn builder() -> (b: UploadOptionsBuilder)
        ensures
            b.expiration is None,
            b.classification is None,
            b.keep_share_links is None,
            b.resolution_strategy is None,
    {
        UploadOptionsBuilder::new()
    }
}

/// Builds `UploadOptions`.
pub struct UploadOptionsBuilder {
    pub expiration: Option<ObjectExpiration>,
    pub classification: Option<u8>,
    pub keep_share_links: Option<bool>,
    pub resolution_strategy: Option<ResolutionStrategy>,
}

impl UploadOptionsBuilder {
    pub fn new() -> (b: Self)
        ensures
            b.expiration is None,
            b.classification is None,
            b.keep_share_links is None,
            b.resolution_strategy is None,
    {
        UploadOptionsBuilder {
            expiration: None,
            classification: None,
            keep_share_links: None,
            resolution_strategy: None,
        }
    }

    pub fn with_expiration(self, expiration: ObjectExpiration) -> (b: Self)
        ensures
            b == (UploadOptionsBuilder { expiration: Some(expiration), ..self }),
    {
        let mut s = self;
        s.expiration = Some(expiration);
        s
    }

    pub fn with_classification(self, classification: u8) -> (b: Self)
        ensures
            b == (UploadOptionsBuilder { classification: Some(classification), ..self }),
    {
        let mut s = self;
        s.classification = Some(classification);
        s
    }

    pub fn with_keep_share_links(self, keep_share_links: bool) -> (b: Self)
        ensures
            b == (UploadOptionsBuilder { keep_share_links: Some(keep_share_links), ..self }),
    {
        let mut s = self;
        s.keep_share_links = Some(keep_share_links);
        s
    }

    pub fn with_resolution_strategy(self, resolution_strategy: ResolutionStrategy) -> (b: Self)
        ensures
            b == (UploadOptionsBuilder { resolution_strategy: Some(resolution_strategy), ..self }),
    {
        let mut s = self;
        s.resolution_strategy = Some(resolution_strategy);
        s
    }

    pub fn build(self) -> (o: UploadOptions)
        ensures
            o == UploadOptions(
                self.expiration,
                self.classification,
                self.keep_share_links,
                self.resolution_strategy,
            ),
    {
        UploadOptions(self.expiration, self.classification, self.keep_share_links, self.resolution_strategy)
    }
}

/// The request that opens an upload channel for a file.
#[derive(Debug, Clone)]
pub struct CreateFileUploadRequest {
    pub parent_id: u64,
    pub name: String,
    pub size: Option<u64>,
    pub classification: Option<u8>,
    pub expiration: Option<ObjectExpiration>,
    pub direct_s3_upload: Option<bool>,
    pub timestamp_creation: Option<String>,
    pub timestamp_modification: Option<String>,
}

impl CreateFileUploadRequest {
    /// A builder for an upload of `name` into `parent_id`, direct to S3.
    pub fn builder(parent_id: u64, name: String) -> (b: CreateFileUploadRequestBuilder)
        ensures
            b == (CreateFileUploadRequestBuilder {
                parent_id,
                name,
                size: None,
                classification: None,
                expiration: None,
                direct_s3_upload: Some(true),
                timestamp_creation: None,
                timestamp_modification: None,
            }),
    {
        CreateFileUploadRequestBuilder {
            parent_id,
            name,
            size: None,
            classification: None,
            expiration: None,
            direct_s3_upload: Some(true),
            timestamp_creation: None,
            timestamp_modification: None,
        }
    }
}

/// Builds a `CreateFileUploadRequest`.
pub struct CreateFileUploadRequestBuilder {
    pub parent_id: u64,
    pub name: String,
    pub size: Option<u64>,
    pub classification: Option<u8>,
    pub expiration: Option<ObjectExpiration>,
    pub direct_s3_upload: Option<bool>,
    pub timestamp_creation: Option<String>,
    pub timestamp_modification: Option<String>,
}

impl CreateFileUploadRequestBuilder {
    pub fn with_size(self, size: u64) -> (b: Self)
        ensures
            b == (CreateFileUploadRequestBuilder { size: Some(size), ..self }),
    {
        let mut s = self;
        s.size = Some(size);
        s
    }

    pub fn with_classification(self, classification: u8) -> (b: Self)
        ensures
            b == (CreateFileUploadRequestBuilder { classification: Some(classification), ..self }),
    {
        let mut s = self;
        s.classification = Some(classification);
        s
    }

    pub fn with_expiration(self, expiration: ObjectExpiration) -> (b: Self)
        ensures
            b == (CreateFileUploadRequestBuilder { expiration: Some(expiration), ..self }),
    {
        let mut s = self;
        s.expiration = Some(expiration);
        s
    }

    pub fn build(self) -> (r: CreateFileUploadRequest)
        ensures
            r == (CreateFileUploadRequest {
                parent_id: self.parent_id,
                name: self.name,
                size: self.size,
                classification: self.classification,
                expiration: self.expiration,
                direct_s3_upload: self.direct_s3_upload,
                timestamp_creation: self.timestamp_creation,
                timestamp_modification: self.timestamp_modification,
            }),
    {
        CreateFileUploadRequest {
            parent_id: self.parent_id,
            name: self.name,
            size: self.size,
            classification: self.classification,
            expiration: self.expiration,
            direct_s3_upload: self.direct_s3_upload,
            timestamp_creation: self.timestamp_creation,
            timestamp_modification: self.timestamp_modification,
        }
    }
}

/// The request for presigned urls of a range of parts.
#[derive(Debug, Clone, Copy, PartialEq, Eq, Structural)]
pub struct GeneratePresignedUrlsRequest {
    pub size: u64,
    pub first_part_number: u32,
    pub last_part_number: u32,
}

impl GeneratePresignedUrlsRequest {
    pub fn new(size: u64, first_part_number: u32, last_part_number: u32) -> (r: Self)
        ensures
            r == (GeneratePresignedUrlsRequest { size, first_part_number, last_part_number }),
    {
        GeneratePresignedUrlsRequest { size, first_part_number, last_part_number }
    }
}

/// One uploaded part of an S3 upload and its ETag.
#[derive(Debug, Clone)]
pub struct S3FileUploadPart {
    pub part_number: u32,
    pub part_etag: String,
}

impl S3FileUploadPart {
    pub fn new(part_number: u32, part_etag: String) -> (p: Self)
        ensures
            p == (S3FileUploadPart { part_number, part_etag }),
    {
        S3FileUploadPart { part_number, part_etag }
    }
}

/// The request that deletes nodes.
#[derive(Debug, Clone)]
pub struct DeleteNodesRequest {
    pub node_ids: Vec<u64>,
}

/// One node to copy or move, optionally renamed.
#[derive(Debug, Clone)]
pub struct TransferNode {
    pub id: u64,
    pub name: Option<String>,
    pub timestamp_creation: Option<String>,
    pub timestamp_modification: Option<String>,
}

/// The request that copies or moves nodes.
#[derive(Debug, Clone)]
pub struct TransferNodesRequest {
    pub items: Vec<TransferNode>,
    pub resolution_strategy: Option<ResolutionStrategy>,
    pub keep_share_links: Option<bool>,
}

/// Builds a `TransferNodesRequest`.
pub struct TransferNodesRequestBuilder {
    pub items: Vec<TransferNode>,
    pub resolution_strategy: Option<ResolutionStrategy>,
    pub keep_share_links: Option<bool>,
}

/// A transfer item for a bare node id.
pub open spec fn transfer_node_of(id: u64) -> TransferNode {
    TransferNode { id, name: None, timestamp_creation: None, timestamp_modification: None }
}

impl TransferNodesRequest {
    pub fn builder(items: Vec<TransferNode>) -> (b: TransferNodesRequestBuilder)
        ensures
            b == (TransferNodesRequestBuilder { items, resolution_strategy: None, keep_share_links: None }),
    {
        TransferNodesRequestBuilder { items, resolution_strategy: None, keep_share_links: None }
    }

    /// A builder that transfers the nodes with the given ids, unrenamed.
    pub fn new_from_ids(node_ids: Vec<u64>) -> (b: TransferNodesRequestBuilder)
        ensures
            b.items@ == node_ids@.map_values(|id: u64| transfer_node_of(id)),
            b.resolution_strategy is None,
            b.keep_share_links is None,
    {
        let mut items: Vec<TransferNode> = Vec::new();
        let mut i: usize = 0;
        while i < node_ids.len()
            invariant
                i <= node_ids.len(),
                items@ == node_ids@.subrange(0, i as int).map_values(|id: u64| transfer_node_of(id)),
            decreases node_ids.len() - i,
        {
            items.push(TransferNode {
                id: node_ids[i],
                name: None,
                timestamp_creation: None,
                timestamp_modification: None,
            });
            i = i + 1;
            assert(items@ =~= node_ids@.subrange(0, i as int).map_values(|id: u64| transfer_node_of(id)));
        }
        assert(node_ids@.subrange(0, node_ids@.len() as int) =~= node_ids@);
        TransferNodesRequestBuilder { items, resolution_strategy: None, keep_share_links: None }
    }

    pub fn with_resolution_strategy(self, resolution_strategy: ResolutionStrategy) -> (r: Self)
        ensures
            r == (TransferNodesRequest { resolution_strategy: Some(resolution_strategy), ..self }),
    {
        let mut s = self;
        s.resolution_strategy = Some(resolution_strategy);
        s
    }

    pub fn with_keep_share_links(self, keep_share_links: bool) -> (r: Self)
        ensures
            r == (TransferNodesRequest { keep_share_links: Some(keep_share_links), ..self }),
    {
        let mut s = self;
        s.keep_share_links = Some(keep_share_links);
        s
    }

    pub fn build(self) -> (r: TransferNodesRequest)
        ensures
            r == self,
    {
        TransferNodesRequest {
            items: self.items,
            resolution_strategy: self.resolution_strategy,
            keep_share_links: self.keep_share_links,
        }
    }
}

impl TransferNodesRequestBuilder {
    pub fn build(self) -> (r: TransferNodesRequest)
        ensures
            r == (TransferNodesRequest {
                items: self.items,
                resolution_strategy: self.resolution_strategy,
                keep_share_links: self.keep_share_links,
            }),
    {
        TransferNodesRequest {
            items: self.items,
            resolution_strategy: self.resolution_strategy,
            keep_share_links: self.keep_share_links,
        }
    }
}

/// Builds a `TransferNode`.
pub struct TransferNodeBuilder {
    pub id: u64,
    pub name: Option<String>,
    pub timestamp_creation: Option<String>,
    pub timestamp_modification: Option<String>,
}

impl TransferNode {
    pub fn builder(id: u64) -> (b: TransferNodeBuilder)
        ensures
            b == (TransferNodeBuilder { id, name: None, timestamp_creation: None, timestamp_modification: None }),
    {
        TransferNodeBuilder { id, name: None, timestamp_creation: None, timestamp_modification: None }
    }

    pub fn with_name(self, name: String) -> (r: Self)
        ensures
            r == (TransferNode { name: Some(name), ..self }),
    {
        let mut s = self;
        s.name = Some(name);
        s
    }

    pub fn with_timestamp_creation(self, timestamp_creation: String) -> (r: Self)
        ensures
            r == (TransferNode { timestamp_creation: Some(timestamp_creation), ..self }),
    {
        let mut s = self;
        s.timestamp_creation = Some(timestamp_creation);
        s
    }

    pub fn with_timestamp_modification(self, timestamp_modification: String) -> (r: Self)
        ensures
            r == (TransferNode { timestamp_modification: Some(timestamp_modification), ..self }),
    {
        let mut s = self;
        s.timestamp_modification = Some(timestamp_modification);
        s
    }

    pub fn build(self) -> (r: TransferNode)
        ensures
            r == self,
    {
        TransferNode {
            id: self.id,
            name: self.name,
            timestamp_creation: self.timestamp_creation,
            timestamp_modification: self.timestamp_modification,
        }
    }
}

impl TransferNodeBuilder {
    pub fn build(self) -> (r: TransferNode)
        ensures
            r == (TransferNode {
                id: self.id,
                name: self.name,
                timestamp_creation: self.timestamp_creation,
                timestamp_modification: self.timestamp_modification,
            }),
    {
        TransferNode {
            id: self.id,
            name: self.name,
            timestamp_creation: self.timestamp_creation,
            timestamp_modification: self.timestamp_modification,
        }
    }
}

/// The request that creates a folder.
#[derive(Debug, Clone)]
pub struct CreateFolderRequest {
    pub name: String,
    pub parent_id: u64,
    pub notes: Option<String>,
    pub timestamp_creation: Option<String>,
    pub timestamp_modification: Option<String>,
    pub classification: Option<u8>,
}

/// Builds a `CreateFolderRequest`.
#[derive(Debug, Clone)]
pub struct CreateFolderRequestBuilder {
    pub name: String,
    pub parent_id: u64,
    pub notes: Option<String>,
    pub timestamp_creation: Option<String>,
    pub timestamp_modification: Option<String>,
    pub classification: Option<u8>,
}

impl CreateFolderRequest {
    pub fn builder(name: String, parent_id: u64) -> (b: CreateFolderRequestBuilder)
        ensures
            b == (CreateFolderRequestBuilder { name, parent_id, notes: None, timestamp_creation: None, timestamp_modification: None, classification: None }),
    {
        CreateFolderRequestBuilder { name, parent_id, notes: None, timestamp_creation: None, timestamp_modification: None, classification: None }
    }
}

impl CreateFolderRequestBuilder {
    pub fn with_notes(self, notes: String) -> (b: Self)
        ensures
            b == (CreateFolderRequestBuilder { notes: Some(notes), ..self }),
    {
        let mut s = self;
        s.notes = Some(notes);
        s
    }

    pub fn with_timestamp_creation(self, timestamp_creation: String) -> (b: Self)
        ensures
            b == (CreateFolderRequestBuilder { timestamp_creation: Some(timestamp_creation), ..self }),
    {
        let mut s = self;
        s.timestamp_creation = Some(timestamp_creation);
        s
    }

    pub fn with_timestamp_modification(self, timestamp_modification: String) -> (b: Self)
        ensures
            b == (CreateFolderRequestBuilder { timestamp_modification: Some(timestamp_modification), ..self }),
    {
        let mut s = self;
        s.timestamp_modification = Some(timestamp_modification);
        s
    }

    pub fn with_classification(self, classification: u8) -> (b: Self)
        ensures
            b == (CreateFolderRequestBuilder { classification: Some(classification), ..self }),
    {
        let mut s = self;
        s.classification = Some(classification);
        s
    }

    pub fn build(self) -> (r: CreateFolderRequest)
        ensures
            r == (CreateFolderRequest { name: self.name, parent_id: self.parent_id, notes: self.notes, timestamp_creation: self.timestamp_creation, timestamp_modification: self.timestamp_modification, classification: self.classification }),
    {
        CreateFolderRequest { name: self.name, parent_id: self.parent_id, notes: self.notes, timestamp_creation: self.timestamp_creation, timestamp_modification: self.timestamp_modification, classification: self.classification }
    }
}

/// The request that changes a folder.
#[derive(Debug, Clone)]
pub struct UpdateFolderRequest {
    pub name: Option<String>,
    pub notes: Option<String>,
    pub timestamp_creation: Option<String>,
    pub timestamp_modification: Option<String>,
    pub classification: Option<u8>,
}

/// Builds an `UpdateFolderRequest`.
#[derive(Debug, Clone)]
pub struct UpdateFolderRequestBuilder {
    pub name: Option<String>,
    pub notes: Option<String>,
    pub timestamp_creation: Option<String>,
    pub timestamp_modification: Option<String>,
    pub classification: Option<u8>,
}

impl UpdateFolderRequest {
    pub fn builder() -> (b: UpdateFolderRequestBuilder)
        ensures
            b == (UpdateFolderRequestBuilder { name: None, notes: None, timestamp_creation: None, timestamp_modification: None, classification: None }),
    {
        UpdateFolderRequestBuilder { name: None, notes: None, timestamp_creation: None, timestamp_modification: None, classification: None }
    }
}

impl UpdateFolderRequestBuilder {
    pub fn with_name(self, name: String) -> (b: Self)
        ensures
            b == (UpdateFolderRequestBuilder { name: Some(name), ..self }),
    {
        let mut s = self;
        s.name = Some(name);
        s
    }

    pub fn with_notes(self, notes: String) -> (b: Self)
        ensures
            b == (UpdateFolderRequestBuilder { notes: Some(notes), ..self }),
    {
        let mut s = self;
        s.notes = Some(notes);
        s
    }

    pub fn with_timestamp_creation(self, timestamp_creation: String) -> (b: Self)
        ensures
            b == (UpdateFolderRequestBuilder { timestamp_creation: Some(timestamp_creation), ..self }),
    {
        let mut s = self;
        s.timestamp_creation = Some(timestamp_creation);
        s
    }

    pub fn with_timestamp_modification(self, timestamp_modification: String) -> (b: Self)
        ensures
            b == (UpdateFolderRequestBuilder { timestamp_modification: Some(timestamp_modification), ..self }),
    {
        let mut s = self;
        s.timestamp_modification = Some(timestamp_modification);
        s
    }

    pub fn with_classification(self, classification: u8) -> (b: Self)
        ensures
            b == (UpdateFolderRequestBuilder { classification: Some(classification), ..self }),
    {
        let mut s = self;
        s.classification = Some(classification);
        s
    }

    pub fn build(self) -> (r: UpdateFolderRequest)
        ensures
            r == (UpdateFolderRequest { name: self.name, notes: self.notes, timestamp_creation: self.timestamp_creation, timestamp_modification: self.timestamp_modification, classification: self.classification }),
    {
        UpdateFolderRequest { name: self.name, notes: self.notes, timestamp_creation: self.timestamp_creation, timestamp_modification: self.timestamp_modification, classification: self.classification }
    }
}

/// A file's name, size and creation and modification times (RFC 3339
/// text in UTC, as node timestamps are).
#[derive(Debug, Clone)]
pub struct FileMeta(
    pub String,
    pub u64,
    pub Option<String>,
    pub Option<String>,
);

impl FileMeta {
    /// A builder with nothing set.
    pub fn builder() -> (b: FileMetaBuilder)
        ensures
            b.name_view() is None,
            b.size_view() is None,
            b.timestamp_creation_view() is None,
            b.timestamp_modification_view() is None,
    {
        FileMetaBuilder::new()
    }
}

/// Builds a `FileMeta`; name and size must be set before `build`.
pub struct FileMetaBuilder {
    name: Option<String>,
    size: Option<u64>,
    timestamp_creation: Option<String>,
    timestamp_modification: Option<String>,
}

impl FileMetaBuilder {
    pub closed spec fn name_view(&self) -> Option<String> {
        self.name
    }

    pub closed spec fn size_view(&self) -> Option<u64> {
        self.size
    }

    pub closed spec fn timestamp_creation_view(&self) -> Option<String> {
        self.timestamp_creation
    }

    pub closed spec fn timestamp_modification_view(&self) -> Option<String> {
        self.timestamp_modification
    }

    /// A builder with nothing set.
    pub fn new() -> (b: Self)
        ensures
            b.name_view() is None,
            b.size_view() is None,
            b.timestamp_creation_view() is None,
            b.timestamp_modification_view() is None,
    {
        FileMetaBuilder { name: None, size: None, timestamp_creation: None, timestamp_modification: None }
    }

    /// Sets the name.
    pub fn with_name(self, name: String) -> (b: Self)
        ensures
            b.name_view() == Some(name),
            b.size_view() == self.size_view(),
            b.timestamp_creation_view() == self.timestamp_creation_view(),
            b.timestamp_modification_view() == self.timestamp_modification_view(),
    {
        FileMetaBuilder { name: Some(name), ..self }
    }

    /// Sets the size.
    pub fn with_size(self, size: u64) -> (b: Self)
        ensures
            b.name_view() == self.name_view(),
            b.size_view() == Some(size),
            b.timestamp_creation_view() == self.timestamp_creation_view(),
            b.timestamp_modification_view() == self.timestamp_modification_view(),
    {
        FileMetaBuilder { size: Some(size), ..self }
    }

    /// Sets the creation time.
    pub fn with_timestamp_creation(self, timestamp_creation: String) -> (b: Self)
        ensures
            b.name_view() == self.name_view(),
            b.size_view() == self.size_view(),
            b.timestamp_creation_view() == Some(timestamp_creation),
            b.timestamp_modification_view() == self.timestamp_modification_view(),
    {
        FileMetaBuilder { timestamp_creation: Some(timestamp_creation), ..self }
    }

    /// Sets the modification time.
    pub fn with_timestamp_modification(self, timestamp_modification: String) -> (b: Self)
        ensures
            b.name_view() == self.name_view(),
            b.size_view() == self.size_view(),
            b.timestamp_creation_view() == self.timestamp_creation_view(),
            b.timestamp_modification_view() == Some(timestamp_modification),
    {
        FileMetaBuilder { timestamp_modification: Some(timestamp_modification), ..self }
    }

    /// The file meta of what was set; name and size must have been set.
    pub fn build(self) -> (m: FileMeta)
        requires
            self.name_view() is Some,
            self.size_view() is Some,
        ensures
            m.0 == self.name_view()->Some_0,
            m.1 == self.size_view()->Some_0,
            m.2 == self.timestamp_creation_view(),
            m.3 == self.timestamp_modification_view(),
    {
        FileMeta(self.name.unwrap(), self.size.unwrap(), self.timestamp_creation, self.timestamp_modification)
    }
}

} // verus!

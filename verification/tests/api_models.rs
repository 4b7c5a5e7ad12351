use dccmd_rs::api::constants::get_client_credentials;
use dccmd_rs::api::models::{FilterQuery, ListAllParams, SortOrder, SortQuery};
use dccmd_rs::api::nodes::models::filters::{NodesFilter, NodesSearchFilter};
use dccmd_rs::api::nodes::models::sorts::{NodesSearchSortBy, NodesSortBy};
use dccmd_rs::api::nodes::models::{
    CreateFileUploadRequest, FileMeta, NodePermissions, NodeType, TransferNodesRequest,
};
use dccmd_rs::api::nodes::nodes::parse_node_path;
use dccmd_rs::api::nodes::upload::calculate_s3_url_count;

#[test]
fn test_nodes_filter_name_eq() {
    let filter = NodesFilter::name_equals("test");
    assert_eq!(filter.filter_to_string(), "name:eq:test");
}

#[test]
fn test_nodes_filter_name_contains() {
    let filter = NodesFilter::name_contains("test");
    assert_eq!(filter.filter_to_string(), "name:cn:test");
}

#[test]
fn test_filter_branch_version_before() {
    let filter = NodesFilter::branch_version_before(1);
    assert_eq!(filter.filter_to_string(), "branchVersion:le:1");
}

#[test]
fn test_nodes_filter_branch_version_after() {
    let filter = NodesFilter::branch_version_after(1);
    assert_eq!(filter.filter_to_string(), "branchVersion:ge:1");
}

#[test]
fn test_nodes_filter_is_file() {
    let filter = NodesFilter::is_file();
    assert_eq!(filter.filter_to_string(), "type:eq:file");
}

#[test]
fn test_search_filters_render_values() {
    assert_eq!(NodesSearchFilter::is_room().filter_to_string(), "type:eq:room");
    assert_eq!(NodesSearchFilter::is_favorite(true).filter_to_string(), "isFavorite:eq:true");
    assert_eq!(NodesSearchFilter::size_greater_equals(1024).filter_to_string(), "size:ge:1024");
    assert_eq!(NodesSearchFilter::classification_equals(3).filter_to_string(), "classification:eq:3");
    assert_eq!(
        NodesSearchFilter::parent_path_contains("/room/").filter_to_string(),
        "parentPath:cn:/room/"
    );
    assert_eq!(NodesFilter::is_encrypted(false).filter_to_string(), "encrypted:eq:false");
    assert_eq!(NodesFilter::reference_id_equals(0).filter_to_string(), "referenceId:eq:0");
}

#[test]
fn test_sorts_render_field_and_order() {
    assert_eq!(NodesSearchSortBy::parent_path_asc().sort_to_string(), "parentPath:asc");
    assert_eq!(NodesSearchSortBy::size_desc().sort_to_string(), "size:desc");
    assert_eq!(NodesSearchSortBy::type_asc().sort_to_string(), "type:asc");
    assert_eq!(NodesSortBy::CntDeletedVersions(SortOrder::Desc).sort_to_string(), "cntDeletedVersions:desc");
}

#[test]
fn test_list_all_params_query_string() {
    assert_eq!(ListAllParams::builder().build().to_query_string(), "?offset=0");
    let params = ListAllParams::builder()
        .with_offset(500)
        .with_limit(100)
        .with_filter("name:cn:x".to_string())
        .with_sort("name:asc".to_string())
        .build();
    assert_eq!(params.to_query_string(), "?offset=500&filter=name:cn:x&sort=name:asc&limit=100");
    let unset = ListAllParams { offset: None, limit: None, filter: None, sort: None };
    assert_eq!(unset.to_query_string(), "?offset=0");
}

#[test]
fn test_node_permissions_listing_form() {
    let all = NodePermissions {
        manage: true,
        read: true,
        create: true,
        change: true,
        delete: true,
        manage_download_share: true,
        manage_upload_share: true,
        read_recycle_bin: true,
        restore_recycle_bin: true,
        delete_recycle_bin: true,
    };
    assert_eq!(all.to_string(), "mrwcd-mmrrd");
    let read_only = NodePermissions {
        manage: false,
        read: true,
        create: false,
        change: false,
        delete: false,
        manage_download_share: false,
        manage_upload_share: false,
        read_recycle_bin: false,
        restore_recycle_bin: false,
        delete_recycle_bin: false,
    };
    assert_eq!(read_only.to_string(), "-r---------");
}

#[test]
fn test_node_type_names() {
    assert_eq!(NodeType::Room.to_api_string(), "room");
    assert_eq!(NodeType::Folder.to_api_string(), "folder");
    assert_eq!(NodeType::File.to_api_string(), "file");
}

#[test]
fn test_parse_folder_path() {
    let path = "/test/folder/";
    let (parent_path, name, depth) = parse_node_path(path).unwrap();
    assert_eq!("/test/", parent_path);
    assert_eq!("folder", name);
    assert_eq!(1, depth);
}

#[test]
fn test_parse_folder_path_deep() {
    let path = "/test/folder/sub1/";
    let (parent_path, name, depth) = parse_node_path(path).unwrap();
    assert_eq!("/test/folder/", parent_path);
    assert_eq!("sub1", name);
    assert_eq!(2, depth);
}

#[test]
fn test_parse_folder_path_deeper() {
    let path = "/test/folder/sub1/sub2/sub3/";
    let (parent_path, name, depth) = parse_node_path(path).unwrap();
    assert_eq!("/test/folder/sub1/sub2/", parent_path);
    assert_eq!("sub3", name);
    assert_eq!(4, depth);
}

#[test]
fn test_parse_folder_path_no_trail_slash() {
    let path = "/test/folder";
    let (parent_path, name, depth) = parse_node_path(path).unwrap();
    assert_eq!("/test/", parent_path);
    assert_eq!("folder", name);
    assert_eq!(1, depth);
}

#[test]
fn test_file_path() {
    let path = "/test/folder/file.txt";
    let (parent_path, name, depth) = parse_node_path(path).unwrap();
    assert_eq!("/test/folder/", parent_path);
    assert_eq!("file.txt", name);
    assert_eq!(2, depth);
}

#[test]
fn test_root_path() {
    let path = "/";
    let (parent_path, name, depth) = parse_node_path(path).unwrap();
    assert_eq!("/", parent_path);
    assert_eq!("", name);
    assert_eq!(0, depth);
}

#[test]
fn test_parse_node_path_joins_back() {
    let (parent_path, name, _) = parse_node_path("/a/b/c//").unwrap();
    assert_eq!(format!("{parent_path}{name}"), "/a/b/c");
}

#[test]
fn test_calculate_s3_url_count() {
    assert_eq!(calculate_s3_url_count(100, 32), (4, 4));
    assert_eq!(calculate_s3_url_count(64, 32), (2, 32));
    assert_eq!(calculate_s3_url_count(10, 5), (2, 5));
    assert_eq!(calculate_s3_url_count(0, 32), (0, 0));
}

#[test]
fn test_get_client_credentials_reads_both_lines() {
    let env = "CLIENT_ID=abc\nCLIENT_SECRET=xyz\n";
    assert_eq!(get_client_credentials(env), ("abc".to_string(), "xyz".to_string()));
}

#[test]
fn test_request_builders_keep_values() {
    let request = CreateFileUploadRequest::builder(7, "a.txt".to_string())
        .with_size(10)
        .with_classification(2)
        .build();
    assert_eq!(request.parent_id, 7);
    assert_eq!(request.name, "a.txt");
    assert_eq!(request.size, Some(10));
    assert_eq!(request.classification, Some(2));
    assert_eq!(request.direct_s3_upload, Some(true));

    let transfer = TransferNodesRequest::new_from_ids(vec![1, 2, 3]).build();
    let ids: Vec<u64> = transfer.items.iter().map(|item| item.id).collect();
    assert_eq!(ids, vec![1, 2, 3]);
    assert!(transfer.items.iter().all(|item| item.name.is_none()));
}

#[test]
fn sorts_convert_to_their_query_text() {
    let s = NodesSearchSortBy::size_desc();
    assert_eq!(String::from(s), s.sort_to_string());
    assert_eq!(String::from(NodesSearchSortBy::parent_path_asc()), "parentPath:asc");
    let l = NodesSortBy::Name(SortOrder::Desc);
    assert_eq!(String::from(l), l.sort_to_string());
    assert_eq!(String::from(NodesSortBy::Size(SortOrder::Asc)), "size:asc");
}

#[test]
fn file_meta_builder_keeps_what_was_set() {
    let meta = FileMeta::builder()
        .with_name("a.txt".to_string())
        .with_size(42)
        .with_timestamp_modification("2024-01-02T03:04:05+00:00".to_string())
        .build();
    assert_eq!(meta.0, "a.txt");
    assert_eq!(meta.1, 42);
    assert_eq!(meta.2, None);
    assert_eq!(meta.3.as_deref(), Some("2024-01-02T03:04:05+00:00"));
}

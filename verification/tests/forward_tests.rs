use my_cache::forward::{ConnectionPlan, DeleteReply, GetReply, SetReply};
use my_cache::{RpcClient, RpcClientError, StatusKind};

#[test]
fn test_fresh_client_plans_connect_with_timeout() {
    let client = RpcClient::new(3000);
    assert_eq!(client.connection_plan("http://peer:50051"), ConnectionPlan::Connect(3000));
}

#[test]
fn test_admitted_handle_is_reused() {
    let mut client = RpcClient::new(3000);
    client.admit_connection("http://peer:50051", 7);
    assert_eq!(client.connection_plan("http://peer:50051"), ConnectionPlan::Reuse(7));
    // Other peers are unaffected.
    assert_eq!(client.connection_plan("http://other:50051"), ConnectionPlan::Connect(3000));
}

#[test]
fn test_last_admitted_handle_wins() {
    let mut client = RpcClient::new(3000);
    client.admit_connection("http://peer:50051", 7);
    client.admit_connection("http://peer:50051", 8);
    assert_eq!(client.connection_plan("http://peer:50051"), ConnectionPlan::Reuse(8));
}

#[test]
fn test_unavailable_peer_is_evicted() {
    // A call that finds the peer unreachable evicts its pooled handle, so
    // the next call plans a fresh connection rather than reusing it.
    let mut client = RpcClient::new(3000);
    client.admit_connection("http://peer:50051", 7);
    client.admit_connection("http://other:50051", 9);
    let r = client.settle_get(
        "http://peer:50051",
        GetReply::ErrStatus(StatusKind::Unavailable, "connection refused".to_string()),
    );
    assert!(matches!(r, Err(RpcClientError::Status(StatusKind::Unavailable, _))));
    assert_eq!(client.connection_plan("http://peer:50051"), ConnectionPlan::Connect(3000));
    // The unrelated peer keeps its handle.
    assert_eq!(client.connection_plan("http://other:50051"), ConnectionPlan::Reuse(9));
}

#[test]
fn test_other_errors_keep_the_handle() {
    let mut client = RpcClient::new(3000);
    client.admit_connection("http://peer:50051", 7);
    let r = client.settle_set(
        "http://peer:50051",
        SetReply::ErrStatus(StatusKind::InvalidArgument, "bad value".to_string()),
    );
    assert!(matches!(r, Err(RpcClientError::Status(StatusKind::InvalidArgument, _))));
    assert_eq!(client.connection_plan("http://peer:50051"), ConnectionPlan::Reuse(7));
}

#[test]
fn test_settle_get_payload() {
    let mut client = RpcClient::new(3000);
    let ok = client.settle_get("http://peer:50051", GetReply::Payload("{\"n\":1}".to_string()));
    assert_eq!(ok.unwrap(), "{\"n\":1}");
    let bad = client.settle_get("http://peer:50051", GetReply::Payload("{oops".to_string()));
    assert!(matches!(bad, Err(RpcClientError::Json(_))));
}

#[test]
fn test_settle_set_and_delete() {
    let mut client = RpcClient::new(3000);
    assert!(client.settle_set("http://peer:50051", SetReply::Ack).is_ok());
    assert_eq!(client.settle_delete("http://peer:50051", DeleteReply::Count(1)).unwrap(), 1);
    let failed = client.settle_delete(
        "http://peer:50051",
        DeleteReply::ConnectFailed("timed out".to_string()),
    );
    assert!(matches!(failed, Err(RpcClientError::Transport(_))));
    // The caller may treat a failed remote delete as zero deletions.
    assert_eq!(failed.unwrap_or(0), 0);
}

use cinny::unifiedpush::{reply_without_plugin, PushCall, PushReply};

#[test]
fn method_names() {
    assert_eq!(PushCall::Register.method_name(), "register");
    assert_eq!(PushCall::Unregister.method_name(), "unregister");
    assert_eq!(PushCall::GetEndpoint.method_name(), "getEndpoint");
    assert_eq!(PushCall::GetDistributors.method_name(), "getDistributors");
    assert_eq!(PushCall::SaveDistributor.method_name(), "saveDistributor");
}

#[test]
fn method_names_are_distinct() {
    let all = [
        PushCall::Register,
        PushCall::Unregister,
        PushCall::GetEndpoint,
        PushCall::GetDistributors,
        PushCall::SaveDistributor,
    ];
    for a in all {
        for b in all {
            assert_eq!(a == b, a.method_name() == b.method_name());
        }
    }
}

#[test]
fn replies_without_plugin() {
    assert!(matches!(reply_without_plugin(PushCall::Register), PushReply::Done));
    assert!(matches!(reply_without_plugin(PushCall::Unregister), PushReply::Done));
    assert!(matches!(reply_without_plugin(PushCall::SaveDistributor), PushReply::Done));
    assert!(matches!(reply_without_plugin(PushCall::GetEndpoint), PushReply::Endpoint(None)));
    match reply_without_plugin(PushCall::GetDistributors) {
        PushReply::Distributors(d) => assert!(d.is_empty()),
        _ => panic!("expected distributors"),
    }
}

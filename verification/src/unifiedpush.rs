use vstd::prelude::*;

verus! {

/// The operations that the application asks of the UnifiedPush plugin.
#[derive(Debug, Clone, Copy, PartialEq, Eq, Structural)]
pub enum PushCall {
    Register,
    Unregister,
    GetEndpoint,
    GetDistributors,
    SaveDistributor,
}

/// The name of the plugin method that carries out `call`.
pub open spec fn method_of(call: PushCall) -> Seq<char> {
    match call {
        PushCall::Register => "register"@,
        PushCall::Unregister => "unregister"@,
        PushCall::GetEndpoint => "getEndpoint"@,
        PushCall::GetDistributors => "getDistributors"@,
        PushCall::SaveDistributor => "saveDistributor"@,
    }
}

impl PushCall {
    /// The name of the plugin method that carries out this operation.
    pub fn method_name(&self) -> (name: &'static str)
        ensures
            name@ == method_of(*self),
    {
        match self {
            PushCall::Register => "register",
            PushCall::Unregister => "unregister",
            PushCall::GetEndpoint => "getEndpoint",
            PushCall::GetDistributors => "getDistributors",
            PushCall::SaveDistributor => "saveDistributor",
        }
    }
}

/// What a UnifiedPush command answers.
#[derive(Debug)]
pub enum PushReply {
    /// The operation was carried out.
    Done,
    /// The current push endpoint, if one is registered.
    Endpoint(Option<String>),
    /// The push distributors installed on the device.
    Distributors(Vec<String>),
}

/// What each command answers where the platform has no UnifiedPush plugin:
/// registering, unregistering and saving a distributor succeed and do
/// nothing, there is no endpoint, and there are no distributors.
pub fn reply_without_plugin(call: PushCall) -> (reply: PushReply)
    ensures
        match call {
            PushCall::GetEndpoint => reply matches PushReply::Endpoint(e) && e is None,
            PushCall::GetDistributors => reply matches PushReply::Distributors(d) && d@.len() == 0,
            _ => reply is Done,
        },
{
    match call {
        PushCall::GetEndpoint => PushReply::Endpoint(None),
        PushCall::GetDistributors => PushReply::Distributors(Vec::new()),
        _ => PushReply::Done,
    }
}

/// Different operations reach different plugin methods.
pub proof fn lemma_method_names_distinct(a: PushCall, b: PushCall)
    requires
        a != b,
    ensures
        method_of(a) != method_of(b),
{
    reveal_strlit("register");
    reveal_strlit("unregister");
    reveal_strlit("getEndpoint");
    reveal_strlit("getDistributors");
    reveal_strlit("saveDistributor");
    if method_of(a) == method_of(b) {
        let m = method_of(a);
        assert(m.len() == method_of(b).len());
        assert(m[0] == method_of(b)[0]);
        assert(m[3] == method_of(b)[3]);
    }
}

} // verus!

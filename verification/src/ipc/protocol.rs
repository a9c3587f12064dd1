//! The names that a protocol declaration gives the items generated for it:
//! its client, its server, the module that holds its packets, and the call
//! and response of each method.

use vstd::prelude::*;

verus! {

/// The names of the items generated for a protocol.
#[derive(Debug)]
pub struct ProtocolNames {
    pub client: String,
    pub server: String,
    pub module: String,
}

/// The given name, or `base` followed by `suffix`.
fn name_or(given: Option<&str>, base: &str, suffix: &str) -> (r: String)
    ensures
        r@ == match given {
            Some(g) => g@,
            None => base@ + suffix@,
        },
{
    match given {
        Some(g) => g.to_owned(),
        None => {
            let mut out = base.to_owned();
            out.append(suffix);
            out
        },
    }
}

/// The names of the items generated for the protocol `base`: the client and
/// server are named as given, else `<base>Client` and `<base>Server`; the
/// module is `__<base>_inner`.
pub fn protocol_names(base: &str, client_name: Option<&str>, server_name: Option<&str>) -> (r: ProtocolNames)
    ensures
        r.client@ == match client_name {
            Some(g) => g@,
            None => base@ + "Client"@,
        },
        r.server@ == match server_name {
            Some(g) => g@,
            None => base@ + "Server"@,
        },
        r.module@ == "__"@ + base@ + "_inner"@,
{
    let client = name_or(client_name, base, "Client");
    let server = name_or(server_name, base, "Server");
    let mut module = "__".to_owned();
    module.append(base);
    module.append("_inner");
    ProtocolNames { client, server, module }
}

/// The names of the call and response structures of the method `method`:
/// `<method>Call` and `<method>Response`.
pub fn method_struct_names(method: &str) -> (r: (String, String))
    ensures
        r.0@ == method@ + "Call"@,
        r.1@ == method@ + "Response"@,
{
    let mut call = method.to_owned();
    call.append("Call");
    let mut response = method.to_owned();
    response.append("Response");
    (call, response)
}

} // verus!

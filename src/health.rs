use vstd::prelude::*;

verus! {

/// The status code of a successful reply.
pub const STATUS_OK: u16 = 200;

/// The name under which the service reports itself.
pub const SERVICE_NAME: &'static str = "Rust Financial Engine";

/// A plain-text reply: a status code and a body.
pub struct TextReply {
    pub status: u16,
    pub body: String,
}

/// The liveness text of a service with the given name.
pub open spec fn healthy_text(service: Seq<char>) -> Seq<char> {
    service + " is healthy!"@
}

/// The text that this service answers a liveness probe with.
pub open spec fn health_body() -> Seq<char> {
    healthy_text(SERVICE_NAME@)
}

/// Builds the liveness text `<service> is healthy!`.
pub fn healthy_message(service: &str) -> (r: String)
    ensures
        r@ == healthy_text(service@),
{
    let mut text = String::from_str(service);
    text.append(" is healthy!");
    text
}

/// Answers a liveness probe. The reply depends on nothing: every call gives status 200
/// and the same text.
pub fn health_check() -> (r: TextReply)
    ensures
        r.status == STATUS_OK,
        r.body@ == health_body(),
{
    TextReply { status: STATUS_OK, body: healthy_message(SERVICE_NAME) }
}

/// A liveness reply is never empty, whatever the service is called.
pub proof fn lemma_health_body_nonempty(service: Seq<char>)
    ensures
        healthy_text(service).len() > 0,
        health_body().len() > 0,
{
    reveal_strlit(" is healthy!");
}

} // verus!

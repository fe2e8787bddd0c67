//! Alert rendering: the human-readable message built from an event record
//! and the JSON webhook body that carries it.

use vstd::prelude::*;
use vstd::string::StringExecFns;
use crate::event::Event;
use crate::text::{dec_str, u64_to_dec};

verus! {

/// The plain-English alert text for a record: the call name, the host
/// identity, the task id and the elapsed nanoseconds.
pub open spec fn alert_message_spec(fn_name: Seq<char>, machine: Seq<char>, ev: Event) -> Seq<
    char,
> {
    "[ALERT] "@ + fn_name + " takes too loooooooong! hostname: "@ + machine + ", pid: "@ + dec_str(
        ev.pid as nat,
    ) + ", elapsed: "@ + dec_str(ev.elapsed_ns as nat) + "ns"@
}

/// The localized alert text for a record: the host identity, the call name,
/// the elapsed nanoseconds and the task id.
pub open spec fn message_spec(fn_name: Seq<char>, hostname: Seq<char>, ev: Event) -> Seq<char> {
    "[警告] "@ + hostname + " 上的 "@ + fn_name + " 实在是太慢了！居然消耗了 "@ + dec_str(
        ev.elapsed_ns as nat,
    ) + " 纳秒！快去看看服务 "@ + dec_str(ev.pid as nat) + " 吧！"@
}

/// Renders the plain-English alert message for a record.
pub fn get_alert_message(fn_name: &String, machine: &String, event: &Event) -> (r: String)
    ensures
        r@ == alert_message_spec(fn_name@, machine@, *event),
{
    let mut r = String::from_str("[ALERT] ");
    r.append(fn_name.as_str());
    r.append(" takes too loooooooong! hostname: ");
    r.append(machine.as_str());
    r.append(", pid: ");
    let pid_s = u64_to_dec(event.pid as u64);
    r.append(pid_s.as_str());
    r.append(", elapsed: ");
    let elapsed_s = u64_to_dec(event.elapsed_ns);
    r.append(elapsed_s.as_str());
    r.append("ns");
    proof {
        assert(r@ =~= alert_message_spec(fn_name@, machine@, *event));
    }
    r
}

/// Renders the localized alert message for a record.
pub fn get_message(fn_name: &String, hostname: &String, event: &Event) -> (r: String)
    ensures
        r@ == message_spec(fn_name@, hostname@, *event),
{
    let mut r = String::from_str("[警告] ");
    r.append(hostname.as_str());
    r.append(" 上的 ");
    r.append(fn_name.as_str());
    r.append(" 实在是太慢了！居然消耗了 ");
    let elapsed_s = u64_to_dec(event.elapsed_ns);
    r.append(elapsed_s.as_str());
    r.append(" 纳秒！快去看看服务 ");
    let pid_s = u64_to_dec(event.pid as u64);
    r.append(pid_s.as_str());
    r.append(" 吧！");
    proof {
        assert(r@ =~= message_spec(fn_name@, hostname@, *event));
    }
    r
}

/// The JSON string literal (quoted and escaped) denoting `s`.
pub uninterp spec fn json_string_of(s: Seq<char>) -> Seq<char>;

/// Relies on serde_json::to_string: for a string slice it returns the JSON
/// string literal — the input quoted and escaped — and depends on the
/// characters alone.  Serializing a string slice cannot fail.
#[verifier::external_body]
fn json_string(s: &str) -> (r: String)
    ensures
        r@ == json_string_of(s@),
{
    match serde_json::to_string(s) {
        Ok(r) => r,
        Err(_) => String::new(),
    }
}

/// The webhook request body carrying `message`.
pub open spec fn webhook_body_spec(message: Seq<char>) -> Seq<char> {
    "{\"msgtype\":\"text\",\"text\":{\"content\":"@ + json_string_of(message) + "}}"@
}

/// Builds the JSON webhook body for an alert message:
/// `{"msgtype":"text","text":{"content":<message as a JSON string>}}`.
pub fn webhook_body(message: &str) -> (r: String)
    ensures
        r@ == webhook_body_spec(message@),
{
    let mut r = String::from_str("{\"msgtype\":\"text\",\"text\":{\"content\":");
    let quoted = json_string(message);
    r.append(quoted.as_str());
    r.append("}}");
    proof {
        assert(r@ =~= webhook_body_spec(message@));
    }
    r
}

} // verus!

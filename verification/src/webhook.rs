//! The webhook notification payload: rendering an execution result into the
//! one-field message the Feishu-style backend expects, and the JSON body of
//! the HTTP POST that delivers it.

use vstd::prelude::*;

use crate::executor::ExecutionResult;
use crate::executor::ExecutionResultView;
use crate::text::dec_str;
use crate::text::dec_string;
use crate::text::json_escape;
use crate::text::json_escape_exec;

verus! {

/// The notification message of one delivery. Serialized as the JSON object
/// `{"msg": ...}` and sent as the body of the request to the webhook.
pub struct FeishuMessage {
    pub msg: String,
}

/// The status word that opens a notification message.
pub open spec fn status_text(success: bool) -> Seq<char> {
    if success {
        ("success")@
    } else {
        ("failure")@
    }
}

/// The notification message of a result: the status word with the duration
/// in milliseconds in parentheses, then the captured stdout, then the
/// captured stderr, each on a line of its own.
pub open spec fn message_text(r: ExecutionResultView) -> Seq<char> {
    status_text(r.success) + ("(")@ + dec_str(r.duration_ms as nat) + ("ms)")@ + ("\n")@ + r.stdout
        + ("\n")@ + r.stderr
}

/// The JSON object `{"msg": ...}` that carries the escaped message body.
pub open spec fn payload_json(msg: Seq<char>) -> Seq<char> {
    ("{\"msg\":\"")@ + json_escape(msg) + ("\"}")@
}

impl FeishuMessage {
    /// Render a result into the message of one notification.
    pub fn from_result(result: &ExecutionResult) -> (m: FeishuMessage)
        ensures
            m.msg@ == message_text(result@),
    {
        let mut msg = if result.success {
            "success".to_owned()
        } else {
            "failure".to_owned()
        };
        msg.append("(");
        let d = dec_string(result.duration_ms);
        msg.append(d.as_str());
        msg.append("ms)");
        msg.append("\n");
        msg.append(result.stdout.as_str());
        msg.append("\n");
        msg.append(result.stderr.as_str());
        proof {
            assert(msg@ =~= message_text(result@));
        }
        FeishuMessage { msg }
    }

    /// The JSON body of the HTTP POST that delivers this message.
    pub fn to_json_body(&self) -> (r: String)
        ensures
            r@ == payload_json(self.msg@),
    {
        let mut r = "{\"msg\":\"".to_owned();
        let esc = json_escape_exec(self.msg.as_str());
        r.append(esc.as_str());
        r.append("\"}");
        proof {
            assert(r@ =~= payload_json(self.msg@));
        }
        r
    }
}

} // verus!

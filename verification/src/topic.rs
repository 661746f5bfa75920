//! Message-bus topic construction and parsing.
//!
//! Commands go out on `<prefix><device_id>/ota`; devices report back on
//! `<prefix><device_id>/ota/status`. The parser recovers the device
//! identifier from a report topic, and rejects every topic that does
//! not match that shape exactly.

use vstd::prelude::*;
use vstd::string::*;
use crate::strutil::{drop_back_while, has_prefix, str_eq};

verus! {

/// Appends a `/` unless the value already ends with one.
pub fn ensure_trailing_slash(value: String) -> (r: String)
    ensures
        r@ == if value@.len() > 0 && value@.last() == '/' {
            value@
        } else {
            value@ + "/"@
        },
{
    let n = value.as_str().unicode_len();
    if n > 0 && value.as_str().get_char(n - 1) == '/' {
        value
    } else {
        value.concat("/")
    }
}

/// The topic a command for `device_id` is published on.
pub fn ota_command_topic(topic_prefix: &str, device_id: &str) -> (r: String)
    ensures
        r@ == topic_prefix@ + device_id@ + "/ota"@,
{
    let r = topic_prefix.to_owned().concat(device_id).concat("/ota");
    proof {
        assert(r@ =~= topic_prefix@ + device_id@ + "/ota"@);
    }
    r
}

/// The topic a telemetry reading from `device_id` is forwarded on.
pub fn device_topic(topic_prefix: &str, device_id: &str) -> (r: String)
    ensures
        r@ == topic_prefix@ + device_id@,
{
    topic_prefix.to_owned().concat(device_id)
}

/// The base URL without its trailing slashes.
pub open spec fn strip_trailing_slashes(s: Seq<char>) -> Seq<char> {
    drop_back_while(s, |c: char| c == '/')
}

/// The publicly fetchable URL of an artifact: the public base (trailing
/// slashes dropped) followed by the artifact route.
pub fn artifact_url(public_base: &str, artifact: &str) -> (r: String)
    ensures
        r@ == strip_trailing_slashes(public_base@) + "/ota/artifacts/"@ + artifact@,
{
    let n = public_base.unicode_len();
    let mut end: usize = n;
    while end > 0 && public_base.get_char(end - 1) == '/'
        invariant
            end <= n,
            n == public_base@.len(),
            forall|j: int| end <= j < n ==> public_base@[j] == '/',
        decreases end,
    {
        end -= 1;
    }
    proof {
        crate::strutil::lemma_drop_back_while(public_base@, |c: char| c == '/', end as int);
    }
    let base = public_base.substring_char(0, end);
    let r = base.to_owned().concat("/ota/artifacts/").concat(artifact);
    proof {
        assert(public_base@.subrange(0, end as int) =~= public_base@.take(end as int));
        assert(r@ =~= strip_trailing_slashes(public_base@) + "/ota/artifacts/"@ + artifact@);
    }
    r
}

/// `d` is the device identifier of status-report topic `topic` under
/// `prefix`: the topic is exactly `<prefix><d>/ota/status` and `d` is a
/// single non-empty path segment.
pub open spec fn is_status_topic_device(prefix: Seq<char>, topic: Seq<char>, d: Seq<char>) -> bool {
    &&& topic == prefix + d + "/ota/status"@
    &&& d.len() > 0
    &&& forall|j: int| 0 <= j < d.len() ==> d[j] != '/'
}

/// Extracts the device identifier from a status-report topic, or
/// refuses the topic when it does not have exactly the shape
/// `<prefix><device>/ota/status`.
pub fn parse_status_topic<'a>(prefix: &str, topic: &'a str) -> (r: Option<&'a str>)
    ensures
        match r {
            Some(d) => is_status_topic_device(prefix@, topic@, d@),
            None => forall|d: Seq<char>| !is_status_topic_device(prefix@, topic@, d),
        },
{
    proof {
        reveal_strlit("/ota/status");
    }
    let np = prefix.unicode_len();
    let nt = topic.unicode_len();
    if !has_prefix(topic, prefix) {
        proof {
            assert forall|d: Seq<char>| !is_status_topic_device(prefix@, topic@, d) by {
                if is_status_topic_device(prefix@, topic@, d) {
                    assert(topic@.subrange(0, prefix@.len() as int) =~= prefix@);
                }
            }
        }
        return None;
    }
    let rest = topic.substring_char(np, nt);
    let nr = nt - np;
    proof {
        assert(topic@ =~= topic@.subrange(0, np as int) + topic@.subrange(np as int, nt as int));
    }
    let mut i: usize = 0;
    while i < nr && rest.get_char(i) != '/'
        invariant
            i <= nr,
            nr == rest@.len(),
            forall|j: int| 0 <= j < i ==> rest@[j] != '/',
        decreases nr - i,
    {
        i += 1;
    }
    if i == 0 || i == nr {
        proof {
            assert forall|d: Seq<char>| !is_status_topic_device(prefix@, topic@, d) by {
                if is_status_topic_device(prefix@, topic@, d) {
                    assert(rest@ =~= d + "/ota/status"@);
                    assert(rest@[d.len() as int] == '/');
                    assert(rest@[0] == d[0]);
                }
            }
        }
        return None;
    }
    let device = rest.substring_char(0, i);
    let tail = rest.substring_char(i, nr);
    if str_eq(tail, "/ota/status") {
        proof {
            assert(rest@ =~= device@ + tail@);
            assert(topic@ =~= prefix@ + device@ + "/ota/status"@);
        }
        Some(device)
    } else {
        proof {
            assert forall|d: Seq<char>| !is_status_topic_device(prefix@, topic@, d) by {
                if is_status_topic_device(prefix@, topic@, d) {
                    assert(rest@ =~= d + "/ota/status"@);
                    assert(rest@[d.len() as int] == '/');
                    assert(d.len() >= i) by {
                        if d.len() < i {
                            assert(rest@[d.len() as int] != '/');
                        }
                    }
                    assert(i >= d.len()) by {
                        if (i as int) < d.len() {
                            assert(d[i as int] != '/');
                            assert(rest@[i as int] == d[i as int]);
                        }
                    }
                    assert(tail@ =~= rest@.skip(d.len() as int));
                    assert(tail@ =~= "/ota/status"@);
                }
            }
        }
        None
    }
}

} // verus!

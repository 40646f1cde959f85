//! Building the LAN-discovery broadcast for local game clients.
//!
//! The client side of the bridge announces its local listener as a LAN
//! server by repeating a tagged text message on a fixed interval. The
//! socket and the timer live outside this crate; the message text is
//! built here.

use vstd::prelude::*;
use crate::minecraft_discovery::{spec_extract_tag, spec_parse_lan};
use crate::text::{
    dec_str, is_digit, lemma_dec_str_value, lemma_find_first_found, matches_at, spec_parse_u16,
    u64_to_string,
};

verus! {

/// The exact broadcast text for a server `name` listening on `port`:
/// `[MOTD]name[/MOTD][AD]port[/AD]`.
pub open spec fn spec_lan_message(name: Seq<char>, port: u16) -> Seq<char> {
    "[MOTD]"@ + name + "[/MOTD][AD]"@ + dec_str(port as nat) + "[/AD]"@
}

/// Build the LAN-discovery broadcast for `server_name` and `server_port`.
pub fn build_lan_message(server_name: &str, server_port: u16) -> (r: String)
    ensures
        r@ == spec_lan_message(server_name@, server_port),
{
    let mut s = String::from_str("[MOTD]");
    s.append(server_name);
    s.append("[/MOTD][AD]");
    let port = u64_to_string(server_port as u64);
    s.append(port.as_str());
    s.append("[/AD]");
    proof {
        assert(s@ =~= spec_lan_message(server_name@, server_port));
    }
    s
}

/// A broadcast round-trips: parsing the built message yields exactly the
/// announced name and port. The name must be non-empty and free of `[`,
/// which would start a tag of its own.
pub proof fn lemma_lan_message_round_trip(name: Seq<char>, port: u16)
    requires
        name.len() > 0,
        forall|i: int| 0 <= i < name.len() ==> name[i] != '[',
    ensures
        spec_parse_lan(spec_lan_message(name, port)) == Some((name, port)),
{
    reveal_strlit("[MOTD]");
    reveal_strlit("[/MOTD][AD]");
    reveal_strlit("[/AD]");
    reveal_strlit("[");
    reveal_strlit("]");
    reveal_strlit("[/");
    reveal_strlit("MOTD");
    reveal_strlit("AD");
    lemma_dec_str_value(port as nat);
    let a = "[MOTD]"@;
    let b = "[/MOTD][AD]"@;
    let c = "[/AD]"@;
    let d = dec_str(port as nat);
    let n = name.len() as int;
    let dl = d.len() as int;
    let msg = spec_lan_message(name, port);
    assert(msg.len() == 6 + n + 11 + dl + 5);
    let motd_start = "["@ + "MOTD"@ + "]"@;
    let motd_end = "[/"@ + "MOTD"@ + "]"@;
    let ad_start = "["@ + "AD"@ + "]"@;
    let ad_end = "[/"@ + "AD"@ + "]"@;
    // Where each `[` of the message stands: at the four tags and nowhere
    // else, since the name and the digits carry none.
    assert forall|j: int| 0 <= j < msg.len() && #[trigger] msg[j] == '[' implies j == 0 || j == 6
        + n || j == 13 + n || j == 17 + n + dl by {
        if 6 <= j < 6 + n {
            assert(msg[j] == name[j - 6]);
        } else if 6 + n <= j < 17 + n {
            assert(msg[j] == b[j - 6 - n]);
        } else if 17 + n <= j < 17 + n + dl {
            assert(msg[j] == d[j - 17 - n]);
            assert(is_digit(d[j - 17 - n]));
        } else if j > 0 {
            assert(msg[j] == c[j - 17 - n - dl]);
        }
    }
    // The opening name tag stands first at position 0.
    assert(msg.subrange(0, 6) =~= motd_start);
    assert(matches_at(msg, motd_start, 0));
    lemma_find_first_found(msg, motd_start, 0, 0);
    // The closing name tag stands first at the end of the name.
    assert(msg.subrange(6 + n, 13 + n) =~= motd_end);
    assert(matches_at(msg, motd_end, 6 + n));
    assert forall|j: int| 0 <= j < 6 + n implies !matches_at(msg, motd_end, j) by {
        if matches_at(msg, motd_end, j) {
            assert(msg.subrange(j, j + 7)[0] == motd_end[0]);
            assert(msg.subrange(j, j + 7)[1] == motd_end[1]);
            assert(msg[j] == '[' && msg[j + 1] == '/');
            assert(msg[1] == a[1]);
        }
    }
    lemma_find_first_found(msg, motd_end, 0, 6 + n);
    assert(spec_extract_tag(msg, "MOTD"@) == Some(msg.subrange(6, 6 + n)));
    assert(msg.subrange(6, 6 + n) =~= name);
    // The port tag opens first right after the closing name tag.
    assert(msg.subrange(13 + n, 17 + n) =~= ad_start);
    assert(matches_at(msg, ad_start, 13 + n));
    assert forall|j: int| 0 <= j < 13 + n implies !matches_at(msg, ad_start, j) by {
        if matches_at(msg, ad_start, j) {
            assert(msg.subrange(j, j + 4)[0] == ad_start[0]);
            assert(msg.subrange(j, j + 4)[1] == ad_start[1]);
            assert(msg[j] == '[' && msg[j + 1] == 'A');
            assert(msg[1] == a[1]);
            if j == 6 + n {
                assert(msg[j + 1] == b[1]);
            }
        }
    }
    lemma_find_first_found(msg, ad_start, 0, 13 + n);
    // And closes first right after the digits.
    assert(msg.subrange(17 + n + dl, 22 + n + dl) =~= ad_end);
    assert(matches_at(msg, ad_end, 17 + n + dl));
    assert forall|j: int| 0 <= j < 17 + n + dl implies !matches_at(msg, ad_end, j) by {
        if matches_at(msg, ad_end, j) {
            assert(msg.subrange(j, j + 5)[0] == ad_end[0]);
            assert(msg.subrange(j, j + 5)[1] == ad_end[1]);
            assert(msg.subrange(j, j + 5)[2] == ad_end[2]);
            assert(msg[j] == '[' && msg[j + 1] == '/' && msg[j + 2] == 'A');
            assert(msg[1] == a[1]);
            if j == 6 + n {
                assert(msg[j + 2] == b[2]);
            }
            if j == 13 + n {
                assert(msg[j + 1] == b[8]);
            }
        }
    }
    lemma_find_first_found(msg, ad_end, 0, 17 + n + dl);
    assert(spec_extract_tag(msg, "AD"@) == Some(msg.subrange(17 + n, 17 + n + dl)));
    assert(msg.subrange(17 + n, 17 + n + dl) =~= d);
    assert(spec_parse_u16(d) == Some(port));
}

/// A broadcast is due once the configured interval has passed since the
/// last one (or none was sent yet).
pub fn broadcast_due(now_ms: u64, last_sent_ms: Option<u64>, interval_ms: u64) -> (r: bool)
    ensures
        r == match last_sent_ms {
            None => true,
            Some(t) => now_ms >= t.saturating_add(interval_ms),
        },
{
    match last_sent_ms {
        None => true,
        Some(t) => now_ms >= t.saturating_add(interval_ms),
    }
}

} // verus!

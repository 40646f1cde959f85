//! Parsing of the LAN-discovery broadcast a local game server emits.
//!
//! The broadcast is tagged ASCII text of the shape
//! `[MOTD]server name[/MOTD][AD]port[/AD]`. The socket that receives it
//! lives outside this crate; the text lands here as a plain `&str`.

use vstd::prelude::*;
use crate::text::{find_first, find_sub, lemma_find_first_is_first, parse_u16, spec_parse_u16};

verus! {

/// The opening tag `[TAG]` for tag text `tag`.
pub open spec fn start_tag_of(tag: Seq<char>) -> Seq<char> {
    "["@ + tag + "]"@
}

/// The closing tag `[/TAG]` for tag text `tag`.
pub open spec fn end_tag_of(tag: Seq<char>) -> Seq<char> {
    "[/"@ + tag + "]"@
}

/// What [`extract_tag_value`] returns: the text strictly between the end
/// of the first `[TAG]` and the start of the first `[/TAG]`, provided both
/// tags occur and that span is non-empty.
pub open spec fn spec_extract_tag(msg: Seq<char>, tag: Seq<char>) -> Option<Seq<char>> {
    match find_first(msg, start_tag_of(tag), 0) {
        None => None,
        Some(s0) => {
            let start = s0 + start_tag_of(tag).len();
            match find_first(msg, end_tag_of(tag), 0) {
                None => None,
                Some(end) => if start < end {
                    Some(msg.subrange(start, end))
                } else {
                    None
                },
            }
        },
    }
}

/// The value between the first `[TAG]` and the first `[/TAG]` in `message`.
pub fn extract_tag_value<'a>(message: &'a str, tag: &str) -> (r: Option<&'a str>)
    ensures
        match r {
            Some(v) => spec_extract_tag(message@, tag@) == Some(v@),
            None => spec_extract_tag(message@, tag@) is None,
        },
{
    let mlen = message.unicode_len();
    let mut start_tag = String::from_str("[");
    start_tag.append(tag);
    start_tag.append("]");
    let mut end_tag = String::from_str("[/");
    end_tag.append(tag);
    end_tag.append("]");
    proof {
        assert(start_tag@ =~= start_tag_of(tag@));
        assert(end_tag@ =~= end_tag_of(tag@));
    }
    let s0 = match find_sub(message, start_tag.as_str()) {
        Some(i) => i,
        None => {
            return None;
        },
    };
    let end = match find_sub(message, end_tag.as_str()) {
        Some(i) => i,
        None => {
            return None;
        },
    };
    proof {
        lemma_find_first_is_first(message@, start_tag@, 0);
        lemma_find_first_is_first(message@, end_tag@, 0);
    }
    let start = s0 + start_tag.unicode_len();
    if start < end {
        Some(message.substring_char(start, end))
    } else {
        None
    }
}

/// What a LAN-discovery broadcast announces: a server name and a port.
pub struct ParsedInfo {
    pub port: u16,
    pub motd: String,
}

/// What [`parse_lan_message`] returns: the `MOTD` tag's value and the
/// `AD` tag's value read as a port number, provided all three parts parse.
pub open spec fn spec_parse_lan(msg: Seq<char>) -> Option<(Seq<char>, u16)> {
    match spec_extract_tag(msg, "MOTD"@) {
        None => None,
        Some(motd) => match spec_extract_tag(msg, "AD"@) {
            None => None,
            Some(ad) => match spec_parse_u16(ad) {
                None => None,
                Some(port) => Some((motd, port)),
            },
        },
    }
}

/// Parse a LAN-discovery broadcast of the shape
/// `[MOTD]name[/MOTD][AD]port[/AD]`.
pub fn parse_lan_message(message: &str) -> (r: Option<ParsedInfo>)
    ensures
        match r {
            Some(p) => spec_parse_lan(message@) == Some((p.motd@, p.port)),
            None => spec_parse_lan(message@) is None,
        },
{
    let motd = match extract_tag_value(message, "MOTD") {
        Some(m) => m,
        None => {
            return None;
        },
    };
    let port_str = match extract_tag_value(message, "AD") {
        Some(p) => p,
        None => {
            return None;
        },
    };
    let port = match parse_u16(port_str) {
        Some(p) => p,
        None => {
            return None;
        },
    };
    Some(ParsedInfo { port, motd: String::from_str(motd) })
}

} // verus!

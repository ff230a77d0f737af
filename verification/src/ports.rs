//! The port list of a scan, as the caller writes it: decimal port numbers
//! with commas between them.

use crate::constants::{default_ports, default_scan_ports};
use crate::text::{
    chars_of, is_space, lemma_field_len, parse_numeral, signed_numeral, split, split_fields,
    trim_window, trimmed, windows,
};
use vstd::prelude::*;

verus! {

/// `token` read as a port number: an optional `+`, then a decimal numeral
/// that is at most 65535. Leading zeros are accepted.
pub open spec fn port_number(token: Seq<char>) -> Option<u16> {
    match signed_numeral(token, 65535) {
        Some(n) => Some(n as u16),
        None => None,
    }
}

/// The port numbers written in `fields`, in order. White space around a
/// field is ignored and a field that holds nothing else is skipped. Where
/// some field is no port number, the outcome is the first such field,
/// trimmed.
pub open spec fn collect_ports(fields: Seq<Seq<char>>) -> Result<Seq<u16>, Seq<char>>
    decreases fields.len(),
{
    if fields.len() == 0 {
        Ok(Seq::empty())
    } else {
        match collect_ports(fields.drop_last()) {
            Err(token) => Err(token),
            Ok(ports) => {
                let token = trimmed(fields.last());
                if token.len() == 0 {
                    Ok(ports)
                } else {
                    match port_number(token) {
                        Some(port) => Ok(ports.push(port)),
                        None => Err(token),
                    }
                }
            },
        }
    }
}

/// The complaint about a field that is no port number.
pub open spec fn invalid_port_message(token: Seq<char>) -> Seq<char> {
    "Invalid port number: '"@ + token + "'"@
}

/// What the comma-separated list `s` stands for: its port numbers, `None`
/// where it names no port at all, or the complaint about its first field that
/// is no port number.
pub open spec fn ports_outcome(s: Seq<char>) -> Result<Option<Seq<u16>>, Seq<char>> {
    match collect_ports(split(s, ',')) {
        Ok(ports) => Ok(
            if ports.len() == 0 {
                None
            } else {
                Some(ports)
            },
        ),
        Err(token) => Err(invalid_port_message(token)),
    }
}

/// The port list that a scan works with: the caller's, or the built-in list
/// where the caller gave none or an empty one. It is never empty.
pub open spec fn effective(ports: Option<Seq<u16>>) -> Seq<u16> {
    match ports {
        Some(list) => if list.len() == 0 {
            default_ports()
        } else {
            list
        },
        None => default_ports(),
    }
}

/// A complaint found among the first `k` fields is the complaint about the
/// whole list.
pub proof fn lemma_first_complaint_stands(fields: Seq<Seq<char>>, k: int)
    requires
        0 <= k <= fields.len(),
        collect_ports(fields.take(k)) is Err,
    ensures
        collect_ports(fields) == collect_ports(fields.take(k)),
    decreases fields.len() - k,
{
    if k == fields.len() {
        assert(fields.take(k) =~= fields);
    } else {
        assert(fields.take(k + 1).drop_last() =~= fields.take(k));
        lemma_first_complaint_stands(fields, k + 1);
    }
}

/// A text of nothing but white space is trimmed to nothing.
pub proof fn lemma_blank_text_trims_to_nothing(s: Seq<char>)
    requires
        forall|i: int| 0 <= i < s.len() ==> is_space(#[trigger] s[i]),
    ensures
        trimmed(s).len() == 0,
    decreases s.len(),
{
    if s.len() > 0 {
        let rest = s.drop_first();
        assert forall|i: int| 0 <= i < rest.len() implies is_space(#[trigger] rest[i]) by {
            assert(rest[i] == s[i + 1]);
        }
        lemma_blank_text_trims_to_nothing(rest);
    }
}

/// A port list that is empty, or holds nothing but white space, names no
/// port: the scan then works with the built-in list of sixteen ports, as it
/// does without a list and with a list of no ports. The built-in list is a
/// constant, so two such scans work with the same list.
pub proof fn lemma_blank_list_selects_the_default(s: Seq<char>)
    requires
        forall|i: int| 0 <= i < s.len() ==> is_space(#[trigger] s[i]),
    ensures
        ports_outcome(s) == Ok::<Option<Seq<u16>>, Seq<char>>(None),
        effective(None) == default_ports(),
        effective(Some(Seq::empty())) == default_ports(),
        default_ports().len() == 16,
{
    assert forall|j: int| 0 <= j < s.len() implies s[j] != ',' by {
        assert(is_space(s[j]));
    }
    lemma_field_len(s, ',', s.len() as int);
    let fields = split(s, ',');
    assert(fields =~= seq![s]);
    assert(fields.drop_last() =~= Seq::<Seq<char>>::empty());
    lemma_blank_text_trims_to_nothing(s);
    assert(collect_ports(fields.drop_last()) == Ok::<Seq<u16>, Seq<char>>(Seq::empty()));
    assert(collect_ports(fields) == Ok::<Seq<u16>, Seq<char>>(Seq::empty()));
}

/// Reads a comma-separated list of port numbers.
///
/// Returns `Ok(None)` where the list names no port (the caller then falls
/// back on the built-in list), and the complaint about the first field that
/// is no port number otherwise.
pub fn parse_ports(s: &str) -> (r: Result<Option<Vec<u16>>, String>)
    ensures
        match r {
            Ok(None) => ports_outcome(s@) == Ok::<Option<Seq<u16>>, Seq<char>>(None),
            Ok(Some(ports)) => ports_outcome(s@) == Ok::<Option<Seq<u16>>, Seq<char>>(
                Some(ports@),
            ),
            Err(e) => ports_outcome(s@) == Err::<Option<Seq<u16>>, Seq<char>>(e@),
        },
{
    let text = chars_of(s);
    let n = text.len();
    assert(text@.subrange(0, n as int) =~= s@);
    let fields = split_fields(&text, 0, n, ',');
    let ghost all = split(s@, ',');
    let mut ports: Vec<u16> = Vec::new();
    let mut i: usize = 0;
    assert(all.take(0) =~= Seq::<Seq<char>>::empty());
    while i < fields.len()
        invariant
            0 <= i <= fields.len(),
            text@ == s@,
            all == split(s@, ','),
            all == windows(text@, fields@),
            crate::text::windows_within(fields@, 0, text.len() as int),
            collect_ports(all.take(i as int)) == Ok::<Seq<u16>, Seq<char>>(ports@),
        decreases fields.len() - i,
    {
        let (a, b) = trim_window(&text, fields[i].0, fields[i].1);
        proof {
            assert(all.take(i + 1).drop_last() =~= all.take(i as int));
            assert(all.take(i + 1).last() == text@.subrange(
                fields[i as int].0 as int,
                fields[i as int].1 as int,
            ));
        }
        if a < b {
            let ghost token = text@.subrange(a as int, b as int);
            let from = if text[a] == '+' {
                a + 1
            } else {
                a
            };
            proof {
                assert(token.first() == text@[a as int]);
                if text@[a as int] == '+' {
                    assert(token.drop_first() =~= text@.subrange(from as int, b as int));
                }
            }
            match parse_numeral(&text, from, b, 65535) {
                Some(port) => {
                    ports.push(port as u16);
                },
                None => {
                    proof {
                        lemma_first_complaint_stands(all, i + 1);
                    }
                    let mut message = String::from_str("Invalid port number: '");
                    message.append(s.substring_char(a, b));
                    message.append("'");
                    return Err(message);
                },
            }
        }
        i += 1;
    }
    assert(all.take(fields.len() as int) =~= all);
    if ports.len() == 0 {
        Ok(None)
    } else {
        Ok(Some(ports))
    }
}

/// The port list that a scan works with: the caller's, or a copy of the
/// built-in list where the caller gave none or an empty one.
pub fn effective_ports(ports: Option<Vec<u16>>) -> (list: Vec<u16>)
    ensures
        list@ == effective(
            match ports {
                Some(given) => Some(given@),
                None => None,
            },
        ),
        list.len() > 0,
{
    match ports {
        Some(given) => if given.len() == 0 {
            default_scan_ports()
        } else {
            given
        },
        None => default_scan_ports(),
    }
}

} // verus!

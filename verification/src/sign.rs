use vstd::prelude::*;

use vstd::string::{StrSliceExecFns, StringExecFns};

verus! {

/// One line of the authorization input: the header name, a colon, the
/// value, and a terminating newline.
pub open spec fn spec_entry_line(key: Seq<char>, value: Seq<char>) -> Seq<char> {
    key + seq![':'] + value + seq!['\n']
}

/// The entry lines concatenated in the order the entries are given.
pub open spec fn spec_concat_lines(entries: Seq<(Seq<char>, Seq<char>)>) -> Seq<char>
    decreases entries.len(),
{
    if entries.len() == 0 {
        Seq::empty()
    } else {
        spec_concat_lines(entries.drop_last()) + spec_entry_line(
            entries.last().0,
            entries.last().1,
        )
    }
}

/// A string with one trailing line break removed: a final carriage return
/// and newline lose both characters, a final newline alone loses one, and
/// anything else is unchanged.
pub open spec fn spec_trim_newline(s: Seq<char>) -> Seq<char> {
    if s.len() >= 2 && s[s.len() - 2] == '\r' && s[s.len() - 1] == '\n' {
        s.take(s.len() - 2)
    } else if s.len() >= 1 && s[s.len() - 1] == '\n' {
        s.take(s.len() - 1)
    } else {
        s
    }
}

/// Removes one trailing line break, if any: first a carriage return and
/// newline pair, else a lone newline; otherwise the input is returned
/// unchanged.
pub fn trim_tailing_newline(input: &str) -> (r: &str)
    ensures
        r@ == spec_trim_newline(input@),
{
    let n = input.unicode_len();
    if n >= 2 && input.get_char(n - 2) == '\r' && input.get_char(n - 1) == '\n' {
        input.substring_char(0, n - 2)
    } else if n >= 1 && input.get_char(n - 1) == '\n' {
        input.substring_char(0, n - 1)
    } else {
        input
    }
}

/// Builds the input string that the handshake signature is computed over:
/// each header entry as `name:value` on its own line, in the order the
/// entries are given, with no newline after the last line.
pub fn gen_authorization_input_string(header_map: &Vec<(String, String)>) -> (r: String)
    ensures
        r@ == spec_trim_newline(spec_concat_lines(header_map.deep_view())),
{
    let mut s = String::new();
    let mut i: usize = 0;
    proof {
        assert(header_map.deep_view().take(0) =~= Seq::<(Seq<char>, Seq<char>)>::empty());
    }
    while i < header_map.len()
        invariant
            i <= header_map@.len(),
            s@ == spec_concat_lines(header_map.deep_view().take(i as int)),
        decreases header_map@.len() - i,
    {
        let pair = &header_map[i];
        s.append(pair.0.as_str());
        s.append(":");
        s.append(pair.1.as_str());
        s.append("\n");
        proof {
            reveal_strlit(":");
            reveal_strlit("\n");
            let dv = header_map.deep_view();
            assert(dv.take(i + 1).drop_last() =~= dv.take(i as int));
            assert(dv.take(i + 1).last() == dv[i as int]);
            assert(s@ =~= spec_concat_lines(dv.take(i + 1)));
        }
        i = i + 1;
    }
    proof {
        assert(header_map.deep_view().take(header_map@.len() as int) =~= header_map.deep_view());
    }
    let r = String::from_str(trim_tailing_newline(s.as_str()));
    r
}

} // verus!

//! The printed table of devkit settings.
use vstd::prelude::*;
use crate::text::{push_char, push_str, string_from};

verus! {

/// `s` padded with spaces on the right to at least `width` characters, as
/// `{:<width}` formats it.
pub open spec fn pad_right(s: Seq<char>, width: nat) -> Seq<char> {
    if s.len() >= width {
        s
    } else {
        s + Seq::new((width - s.len()) as nat, |i: int| ' ')
    }
}

/// One table line: key, value and where the value came from.
pub open spec fn table_line(key: Seq<char>, value: Seq<char>, source: Seq<char>) -> Seq<char> {
    pad_right(key, 12) + " "@ + pad_right(value, 30) + " "@ + source + "\n"@
}

/// The lines of the settings `(key, value, set from the environment)`.
pub open spec fn setting_lines(rows: Seq<(Seq<char>, Seq<char>, bool)>) -> Seq<char>
    decreases rows.len(),
{
    if rows.len() == 0 {
        Seq::empty()
    } else {
        let r = rows.last();
        setting_lines(rows.drop_last()) + table_line(r.0, r.1, if r.2 { "env"@ } else { "default"@ })
    }
}

/// The lines of explicit overrides `(key, value)`.
pub open spec fn override_lines(overrides: Seq<(Seq<char>, Seq<char>)>) -> Seq<char>
    decreases overrides.len(),
{
    if overrides.len() == 0 {
        Seq::empty()
    } else {
        let o = overrides.last();
        override_lines(overrides.drop_last()) + "  "@ + o.0 + " = "@ + o.1 + "\n"@
    }
}

/// The whole table: a title, a header line, one line per setting, and the
/// overrides when there are any.
pub open spec fn settings_table(
    rows: Seq<(Seq<char>, Seq<char>, bool)>,
    overrides: Seq<(Seq<char>, Seq<char>)>,
) -> Seq<char> {
    "devkit configuration\n"@ + "====================\n"@ + table_line("key"@, "value"@, "source"@)
        + setting_lines(rows) + if overrides.len() == 0 {
        Seq::empty()
    } else {
        "overrides:\n"@ + override_lines(overrides)
    }
}

/// The character views of settings rows.
pub open spec fn rows_view(rows: Seq<(String, String, bool)>) -> Seq<(Seq<char>, Seq<char>, bool)> {
    rows.map_values(|r: (String, String, bool)| (r.0@, r.1@, r.2))
}

/// The character views of override pairs.
pub open spec fn pairs_view(pairs: Seq<(String, String)>) -> Seq<(Seq<char>, Seq<char>)> {
    pairs.map_values(|p: (String, String)| (p.0@, p.1@))
}

fn push_padded(out: &mut String, s: &str, width: usize)
    ensures
        final(out)@ == old(out)@ + pad_right(s@, width as nat),
{
    push_str(out, s);
    let n = s.unicode_len();
    if n < width {
        let ghost before = out@;
        let mut k: usize = n;
        while k < width
            invariant
                n <= k <= width,
                n == s@.len(),
                out@ == before + Seq::new((k - n) as nat, |i: int| ' '),
            decreases width - k,
        {
            push_char(out, ' ');
            k = k + 1;
            assert(out@ =~= before + Seq::new((k - n) as nat, |i: int| ' '));
        }
    }
    assert(final(out)@ =~= old(out)@ + pad_right(s@, width as nat));
}

fn push_line(out: &mut String, key: &str, value: &str, source: &str)
    ensures
        final(out)@ == old(out)@ + table_line(key@, value@, source@),
{
    push_padded(out, key, 12);
    push_str(out, " ");
    push_padded(out, value, 30);
    push_str(out, " ");
    push_str(out, source);
    push_str(out, "\n");
    assert(final(out)@ =~= old(out)@ + table_line(key@, value@, source@));
}

/// The settings table: each row is a key, its displayed value and whether
/// the environment set it; explicit overrides follow when there are any.
pub fn settings_table_text(rows: &Vec<(String, String, bool)>, overrides: &Vec<(String, String)>) -> (res:
    String)
    ensures
        res@ == settings_table(rows_view(rows@), pairs_view(overrides@)),
{
    let mut out = string_from("devkit configuration\n");
    push_str(&mut out, "====================\n");
    push_line(&mut out, "key", "value", "source");
    let ghost head = out@;
    for i in 0..rows.len()
        invariant
            out@ == head + setting_lines(rows_view(rows@.take(i as int))),
    {
        let ghost before = out@;
        let source = if rows[i].2 { "env" } else { "default" };
        push_line(&mut out, rows[i].0.as_str(), rows[i].1.as_str(), source);
        proof {
            let t = rows_view(rows@.take(i + 1));
            assert(t.drop_last() =~= rows_view(rows@.take(i as int)));
            assert(t.last() == (rows@[i as int].0@, rows@[i as int].1@, rows@[i as int].2));
            assert(out@ =~= head + setting_lines(t));
        }
    }
    assert(rows@.take(rows.len() as int) =~= rows@);
    let ghost mid = out@;
    if overrides.len() > 0 {
        push_str(&mut out, "overrides:\n");
        let ghost head2 = out@;
        for i in 0..overrides.len()
            invariant
                out@ == head2 + override_lines(pairs_view(overrides@.take(i as int))),
        {
            push_str(&mut out, "  ");
            push_str(&mut out, overrides[i].0.as_str());
            push_str(&mut out, " = ");
            push_str(&mut out, overrides[i].1.as_str());
            push_str(&mut out, "\n");
            proof {
                let t = pairs_view(overrides@.take(i + 1));
                assert(t.drop_last() =~= pairs_view(overrides@.take(i as int)));
                assert(t.last() == (overrides@[i as int].0@, overrides@[i as int].1@));
                assert(out@ =~= head2 + override_lines(t));
            }
        }
        assert(overrides@.take(overrides.len() as int) =~= overrides@);
    }
    assert(out@ =~= settings_table(rows_view(rows@), pairs_view(overrides@)));
    out
}

} // verus!

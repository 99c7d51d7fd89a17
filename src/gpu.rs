use vstd::prelude::*;
use vstd::string::StringExecFns;

verus! {

/// `l` without one trailing carriage return.
pub open spec fn without_cr(l: Seq<char>) -> Seq<char> {
    if l.len() > 0 && l.last() == '\r' {
        l.drop_last()
    } else {
        l
    }
}

/// The lines of `s`, given the part `cur` of a line read before it: each `'\n'`
/// ends a line, which drops one `'\r'` before it; the last line needs no `'\n'`
/// and keeps any `'\r'`, and an empty rest after a final `'\n'` is no line.
pub open spec fn lines_from(s: Seq<char>, cur: Seq<char>) -> Seq<Seq<char>>
    decreases s.len(),
{
    if s.len() == 0 {
        if cur.len() == 0 {
            Seq::empty()
        } else {
            seq![cur]
        }
    } else if s[0] == '\n' {
        seq![without_cr(cur)] + lines_from(s.drop_first(), Seq::empty())
    } else {
        lines_from(s.drop_first(), cur.push(s[0]))
    }
}

/// The lines of a text, as `str::lines` splits it.
pub open spec fn lines_of(s: Seq<char>) -> Seq<Seq<char>> {
    lines_from(s, Seq::empty())
}

/// A character with the Unicode White_Space property.
pub open spec fn is_white(c: char) -> bool {
    ('\u{9}' <= c && c <= '\u{d}') || c == ' ' || c == '\u{85}' || c == '\u{a0}' || c
        == '\u{1680}' || ('\u{2000}' <= c && c <= '\u{200a}') || c == '\u{2028}' || c
        == '\u{2029}' || c == '\u{202f}' || c == '\u{205f}' || c == '\u{3000}'
}

/// `s` without its leading whitespace.
pub open spec fn trim_start(s: Seq<char>) -> Seq<char>
    decreases s.len(),
{
    if s.len() > 0 && is_white(s[0]) {
        trim_start(s.drop_first())
    } else {
        s
    }
}

/// `s` without its trailing whitespace.
pub open spec fn trim_end(s: Seq<char>) -> Seq<char>
    decreases s.len(),
{
    if s.len() > 0 && is_white(s.last()) {
        trim_end(s.drop_last())
    } else {
        s
    }
}

/// A text without its leading and trailing whitespace, as `str::trim` gives it.
pub open spec fn trimmed(s: Seq<char>) -> Seq<char> {
    trim_end(trim_start(s))
}

/// `s` begins with `prefix`.
pub open spec fn has_prefix(s: Seq<char>, prefix: Seq<char>) -> bool {
    prefix.len() <= s.len() && s.subrange(0, prefix.len() as int) == prefix
}

/// `s` with each occurrence of a non-empty `from` replaced by `to`, taken from the
/// left without overlap, as `str::replace` gives it.
pub open spec fn replaced(s: Seq<char>, from: Seq<char>, to: Seq<char>) -> Seq<char>
    decreases s.len(),
{
    if s.len() == 0 {
        s
    } else if from.len() > 0 && has_prefix(s, from) {
        to + replaced(s.subrange(from.len() as int, s.len() as int), from, to)
    } else {
        seq![s[0]] + replaced(s.drop_first(), from, to)
    }
}

/// Relies on str::lines: lines end at "\n" or "\r\n", and the final line ending
/// is optional.
#[verifier::external_body]
fn split_lines(s: &str) -> (r: Vec<String>)
    ensures
        r@.map_values(|l: String| l@) == lines_of(s@),
{
    s.lines().map(String::from).collect()
}

/// Relies on str::trim: leading and trailing characters with the Unicode
/// White_Space property are removed.
#[verifier::external_body]
fn trim_text(s: &str) -> (r: String)
    ensures
        r@ == trimmed(s@),
{
    s.trim().to_string()
}

/// Relies on str::replace with a non-empty `&str` pattern: every match, found
/// from the left without overlap, is replaced by `to`.
#[verifier::external_body]
fn replace_text(s: &str, from: &str, to: &str) -> (r: String)
    requires
        from@.len() > 0,
    ensures
        r@ == replaced(s@, from@, to@),
{
    s.replace(from, to)
}

/// `parts` with `sep` between each two.
pub open spec fn joined(parts: Seq<Seq<char>>, sep: Seq<char>) -> Seq<char>
    decreases parts.len(),
{
    if parts.len() == 0 {
        Seq::empty()
    } else if parts.len() == 1 {
        parts[0]
    } else {
        joined(parts.drop_last(), sep) + sep + parts.last()
    }
}

/// The label before each adapter name in the display report.
pub open spec fn chipset_label() -> Seq<char> {
    "Chipset Model"@
}

/// A line that is not blank.
pub open spec fn is_filled() -> spec_fn(Seq<char>) -> bool {
    |l: Seq<char>| trimmed(l).len() > 0
}

/// A line of a display report that names an adapter.
pub open spec fn is_chipset_line() -> spec_fn(Seq<char>) -> bool {
    |l: Seq<char>| has_prefix(trimmed(l), chipset_label())
}

/// The adapter name on a chipset line: the line trimmed, "Chipset Model: " removed.
pub open spec fn chipset_name() -> spec_fn(Seq<char>) -> Seq<char> {
    |l: Seq<char>| replaced(trimmed(l), "Chipset Model: "@, Seq::empty())
}

/// The adapter names in a video-controller listing: every line after the header
/// that is not blank.
pub open spec fn listed_names(lines: Seq<Seq<char>>) -> Seq<Seq<char>> {
    if lines.len() == 0 {
        lines
    } else {
        lines.drop_first().filter(is_filled())
    }
}

/// The adapter names in a display report, one from each chipset line.
pub open spec fn reported_names(lines: Seq<Seq<char>>) -> Seq<Seq<char>> {
    lines.filter(is_chipset_line()).map_values(chipset_name())
}

fn starts_with_text(s: &str, prefix: &str) -> (r: bool)
    ensures
        r == has_prefix(s@, prefix@),
{
    let n = prefix.unicode_len();
    if n > s.unicode_len() {
        return false;
    }
    let mut i: usize = 0;
    while i < n
        invariant
            n == prefix@.len(),
            n <= s@.len(),
            i <= n,
            forall|j: int| 0 <= j < i ==> s@[j] == prefix@[j],
        decreases n - i,
    {
        if s.get_char(i) != prefix.get_char(i) {
            return false;
        }
        i += 1;
    }
    proof {
        assert(s@.subrange(0, n as int) =~= prefix@);
    }
    true
}

/// The texts of `parts` with `sep` between each two.
pub fn join_with(parts: &Vec<String>, sep: &str) -> (r: String)
    ensures
        r@ == joined(parts@.map_values(|l: String| l@), sep@),
{
    let ghost ps = parts@.map_values(|l: String| l@);
    let mut out = String::new();
    let mut i: usize = 0;
    while i < parts.len()
        invariant
            i <= parts.len(),
            ps == parts@.map_values(|l: String| l@),
            out@ == joined(ps.subrange(0, i as int), sep@),
        decreases parts.len() - i,
    {
        proof {
            assert(ps.subrange(0, i as int + 1).drop_last() =~= ps.subrange(0, i as int));
        }
        if i > 0 {
            out.append(sep);
        } else {
            proof {
                assert(out@ =~= Seq::<char>::empty());
            }
        }
        out.append(parts[i].as_str());
        proof {
            if i == 0 {
                assert(out@ =~= ps[0]);
            }
        }
        i += 1;
    }
    proof {
        assert(ps.subrange(0, i as int) =~= ps);
    }
    out
}

/// The adapter names in the output of a video-controller listing, joined by ", ".
pub fn names_from_listing(output: &str) -> (r: String)
    ensures
        r@ == joined(listed_names(lines_of(output@)), ", "@),
{
    let lines = split_lines(output);
    let ghost ls = lines@.map_values(|l: String| l@);
    let mut kept: Vec<String> = Vec::new();
    let mut i: usize = 1;
    proof {
        if ls.len() > 0 {
            reveal(Seq::filter);
            assert(ls.subrange(1, 1) =~= Seq::<Seq<char>>::empty());
            assert(kept@.map_values(|l: String| l@) =~= Seq::<Seq<char>>::empty());
        }
    }
    while i < lines.len()
        invariant
            1 <= i,
            lines.len() > 0 ==> i <= lines.len(),
            ls == lines@.map_values(|l: String| l@),
            lines.len() > 0 ==> kept@.map_values(|l: String| l@) == ls.subrange(1, i as int).filter(
                is_filled(),
            ),
            lines.len() == 0 ==> kept@.len() == 0,
        decreases lines.len() - i,
    {
        let t = trim_text(lines[i].as_str());
        proof {
            reveal(Seq::filter);
            assert(ls.subrange(1, i as int + 1).drop_last() =~= ls.subrange(1, i as int));
        }
        let ghost before = kept@;
        if t.unicode_len() > 0 {
            kept.push(lines[i].clone());
            proof {
                assert(kept@.map_values(|l: String| l@) =~= before.map_values(|l: String| l@).push(
                    ls[i as int],
                ));
            }
        }
        i += 1;
    }
    proof {
        if ls.len() > 0 {
            assert(ls.subrange(1, i as int) =~= ls.drop_first());
        } else {
            assert(kept@.map_values(|l: String| l@) =~= listed_names(ls));
        }
    }
    join_with(&kept, ", ")
}

/// The adapter names in the output of a display report, joined by ", ".
pub fn names_from_report(output: &str) -> (r: String)
    ensures
        r@ == joined(reported_names(lines_of(output@)), ", "@),
{
    let lines = split_lines(output);
    let ghost ls = lines@.map_values(|l: String| l@);
    let label = "Chipset Model";
    let full = "Chipset Model: ";
    let empty = "";
    proof {
        reveal_strlit("Chipset Model");
        reveal_strlit("Chipset Model: ");
        reveal_strlit("");
        assert(full@.len() == 15);
    }
    let mut names: Vec<String> = Vec::new();
    proof {
        reveal(Seq::filter);
        assert(names@.map_values(|l: String| l@) =~= ls.subrange(0, 0).filter(is_chipset_line()).map_values(chipset_name()));
    }
    let mut i: usize = 0;
    while i < lines.len()
        invariant
            i <= lines.len(),
            ls == lines@.map_values(|l: String| l@),
            label@ == chipset_label(),
            full@ == "Chipset Model: "@,
            full@.len() > 0,
            empty@ == Seq::<char>::empty(),
            names@.map_values(|l: String| l@) == ls.subrange(0, i as int).filter(is_chipset_line()).map_values(chipset_name()),
        decreases lines.len() - i,
    {
        let t = trim_text(lines[i].as_str());
        proof {
            reveal(Seq::filter);
            assert(ls.subrange(0, i as int + 1).drop_last() =~= ls.subrange(0, i as int));
        }
        let ghost before = names@;
        if starts_with_text(t.as_str(), label) {
            let n = replace_text(t.as_str(), full, empty);
            proof {
                assert(ls[i as int] == lines@[i as int]@);
                assert(t@ == trimmed(ls[i as int]));
                assert(n@ == replaced(trimmed(ls[i as int]), "Chipset Model: "@, Seq::empty()));
                assert(n@ == chipset_name()(ls[i as int]));
            }
            names.push(n);
            proof {
                assert(names@.map_values(|l: String| l@) =~= before.map_values(|l: String| l@).push(
                    chipset_name()(ls[i as int]),
                ));
            }
        }
        i += 1;
    }
    proof {
        assert(ls.subrange(0, i as int) =~= ls);
    }
    join_with(&names, ", ")
}

} // verus!

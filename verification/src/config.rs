//! The configuration text: one binding per line, written as a combination,
//! `=>`, and a command.

use crate::binding::{Binding, ConfigError};
use crate::keymap::{all_known, has_code, joined, key_error, key_to_keycode, text_of, tokens};
use vstd::prelude::*;
use vstd::string::StrSliceExecFns;

verus! {

/// Whether a character has the Unicode property White_Space, as
/// `char::is_whitespace` tells it.
pub uninterp spec fn is_white_space(c: char) -> bool;

/// Calls `char::is_whitespace`, whose result depends on the character
/// alone: the contract names that result and claims nothing else of it.
#[verifier::external_body]
fn white_space(c: char) -> (r: bool)
    ensures
        r == is_white_space(c),
{
    c.is_whitespace()
}

/// The lines of a text: the text cut at every line feed. A text that ends
/// in a line feed has an empty last line.
pub open spec fn lines_of(text: Seq<char>) -> Seq<Seq<char>>
    decreases text.len(),
{
    if text.len() == 0 {
        seq![Seq::<char>::empty()]
    } else {
        let before = lines_of(text.drop_last());
        let c = text.last();
        if c == '\n' {
            before.push(Seq::<char>::empty())
        } else {
            before.drop_last().push(before.last().push(c))
        }
    }
}

/// A text without its leading white space.
pub open spec fn trim_start(s: Seq<char>) -> Seq<char>
    decreases s.len(),
{
    if s.len() > 0 && is_white_space(s[0]) {
        trim_start(s.drop_first())
    } else {
        s
    }
}

/// A text without its trailing white space.
pub open spec fn trim_end(s: Seq<char>) -> Seq<char>
    decreases s.len(),
{
    if s.len() > 0 && is_white_space(s.last()) {
        trim_end(s.drop_last())
    } else {
        s
    }
}

/// A text without its leading and trailing white space.
pub open spec fn trimmed(s: Seq<char>) -> Seq<char> {
    trim_end(trim_start(s))
}

/// The index of the first `=>` in `line` at or after `i`, or -1.
pub open spec fn arrow_from(line: Seq<char>, i: int) -> int
    decreases line.len() - i,
{
    if i < 0 || i + 1 >= line.len() {
        -1
    } else if line[i] == '=' && line[i + 1] == '>' {
        i
    } else {
        arrow_from(line, i + 1)
    }
}

/// What a line defines: the combination text and the command text on the
/// two sides of its first `=>`, each trimmed. A line that begins with `#`,
/// a blank line and a line without `=>` define nothing.
pub open spec fn entry_of(line: Seq<char>) -> Option<(Seq<char>, Seq<char>)> {
    let at = arrow_from(line, 0);
    if line.len() > 0 && line[0] == '#' {
        None
    } else if trimmed(line).len() == 0 {
        None
    } else if at < 0 {
        None
    } else {
        Some((trimmed(line.take(at)), trimmed(line.skip(at + 2))))
    }
}

/// What a sequence of lines defines, in their order.
pub open spec fn entries(lines: Seq<Seq<char>>) -> Seq<(Seq<char>, Seq<char>)>
    decreases lines.len(),
{
    if lines.len() == 0 {
        Seq::empty()
    } else {
        let before = entries(lines.drop_last());
        match entry_of(lines.last()) {
            Some(e) => before.push(e),
            None => before,
        }
    }
}

/// Cutting a text into lines loses nothing: no line holds a line feed, and
/// the lines joined by line feeds are the text.
pub proof fn lines_rejoin(text: Seq<char>)
    ensures
        lines_of(text).len() >= 1,
        joined(lines_of(text), '\n') == text,
        forall|i: int, j: int|
            0 <= i < lines_of(text).len() && 0 <= j < lines_of(text)[i].len()
                ==> #[trigger] lines_of(text)[i][j] != '\n',
    decreases text.len(),
{
    if text.len() > 0 {
        let rest = text.drop_last();
        let c = text.last();
        let before = lines_of(rest);
        let now = lines_of(text);
        lines_rejoin(rest);
        assert(rest.push(c) =~= text);
        if c == '\n' {
            assert(now.drop_last() =~= before);
            assert(joined(now, '\n') =~= joined(before, '\n').push('\n'));
        } else {
            let grown = before.last().push(c);
            if before.len() == 1 {
                assert(now[0] == grown);
            } else {
                assert(now.drop_last() =~= before.drop_last());
                assert(joined(now, '\n') =~= joined(before, '\n').push(c));
            }
            assert forall|i: int, j: int|
                0 <= i < now.len() && 0 <= j < now[i].len() implies #[trigger] now[i][j]
                != '\n' by {
                if i < now.len() - 1 {
                    assert(now[i] == before[i]);
                } else if j < before.last().len() {
                    assert(now[i][j] == before[i][j]);
                }
            }
        }
    }
}

/// Whether `=>` stands at index `i` of `line`.
pub open spec fn arrow_at(line: Seq<char>, i: int) -> bool {
    0 <= i && i + 1 < line.len() && line[i] == '=' && line[i + 1] == '>'
}

/// `arrow_from` finds the first `=>` at or after `i`: it stands where the
/// result says and nowhere between `i` and there, and a negative result
/// means that there is none from `i` on.
pub proof fn arrow_is_first(line: Seq<char>, i: int)
    requires
        0 <= i,
    ensures
        arrow_from(line, i) >= 0 ==> arrow_from(line, i) >= i && arrow_at(
            line,
            arrow_from(line, i),
        ),
        forall|j: int|
            i <= j && (j < arrow_from(line, i) || arrow_from(line, i) < 0) ==> !arrow_at(line, j),
    decreases line.len() - i,
{
    if i + 1 < line.len() && !(line[i] == '=' && line[i + 1] == '>') {
        arrow_is_first(line, i + 1);
    }
}

/// Trimming removes white space at the two ends and nothing else: the
/// result is a stretch of the text that neither begins nor ends with white
/// space, and all that stands before and after it is white space.
pub proof fn trimmed_is_the_core(s: Seq<char>)
    ensures
        exists|a: int, b: int|
            {
                &&& 0 <= a <= b <= s.len()
                &&& #[trigger] s.subrange(a, b) == trimmed(s)
                &&& forall|i: int| 0 <= i < a ==> is_white_space(#[trigger] s[i])
                &&& forall|i: int| b <= i < s.len() ==> is_white_space(#[trigger] s[i])
                &&& a < b ==> !is_white_space(s[a]) && !is_white_space(s[b - 1])
            },
{
    let a = trim_start_bound(s);
    let t = s.subrange(a, s.len() as int);
    let len = trim_end_bound(t);
    let b = a + len;
    assert(t.subrange(0, len) =~= s.subrange(a, b));
    assert forall|i: int| b <= i < s.len() implies is_white_space(#[trigger] s[i]) by {
        assert(t[i - a] == s[i]);
    }
    if a < b {
        assert(t[0] == s[a]);
        assert(t[len - 1] == s[b - 1]);
    }
}

/// Where the text without its leading white space begins.
proof fn trim_start_bound(s: Seq<char>) -> (a: int)
    ensures
        0 <= a <= s.len(),
        s.subrange(a, s.len() as int) == trim_start(s),
        forall|i: int| 0 <= i < a ==> is_white_space(#[trigger] s[i]),
        a < s.len() ==> !is_white_space(s[a]),
    decreases s.len(),
{
    if s.len() > 0 && is_white_space(s[0]) {
        let rest = s.drop_first();
        let a = trim_start_bound(rest);
        assert(rest.subrange(a, rest.len() as int) =~= s.subrange(a + 1, s.len() as int));
        assert forall|i: int| 0 <= i < a + 1 implies is_white_space(#[trigger] s[i]) by {
            if i > 0 {
                assert(rest[i - 1] == s[i]);
            }
        }
        if a < rest.len() {
            assert(rest[a] == s[a + 1]);
        }
        a + 1
    } else {
        assert(s.subrange(0, s.len() as int) =~= s);
        0
    }
}

/// Where the text without its trailing white space ends.
proof fn trim_end_bound(s: Seq<char>) -> (b: int)
    ensures
        0 <= b <= s.len(),
        s.subrange(0, b) == trim_end(s),
        forall|i: int| b <= i < s.len() ==> is_white_space(#[trigger] s[i]),
        b > 0 ==> !is_white_space(s[b - 1]),
    decreases s.len(),
{
    if s.len() > 0 && is_white_space(s.last()) {
        let rest = s.drop_last();
        let b = trim_end_bound(rest);
        assert(rest.subrange(0, b) =~= s.subrange(0, b));
        assert forall|i: int| b <= i < s.len() implies is_white_space(#[trigger] s[i]) by {
            if i < rest.len() {
                assert(rest[i] == s[i]);
            }
        }
        if b > 0 {
            assert(rest[b - 1] == s[b - 1]);
        }
        b
    } else {
        assert(s.subrange(0, s.len() as int) =~= s);
        s.len() as int
    }
}

/// Whether the binding `b` is what the entry `e` defines.
pub open spec fn binding_of(b: Binding, e: (Seq<char>, Seq<char>)) -> bool {
    &&& b.wf()
    &&& all_known(tokens(e.0))
    &&& forall|k: u16| b.keys().contains(k) <==> has_code(tokens(e.0), k)
    &&& b.command_text() == e.1
}

/// Whether the entry at index `j` is the first whose combination holds an
/// unknown key name.
pub open spec fn first_bad_entry(es: Seq<(Seq<char>, Seq<char>)>, j: int) -> bool {
    &&& 0 <= j < es.len()
    &&& !all_known(tokens(es[j].0))
    &&& forall|i: int| 0 <= i < j ==> all_known(tokens(#[trigger] es[i].0))
}

/// Whether every entry's combination holds known key names only.
pub open spec fn all_entries_known(es: Seq<(Seq<char>, Seq<char>)>) -> bool {
    forall|i: int| 0 <= i < es.len() ==> all_known(tokens(#[trigger] es[i].0))
}

/// The bounds of `line[from..to]` without its leading and trailing white
/// space.
fn trim_range(line: &Vec<char>, from: usize, to: usize) -> (r: (usize, usize))
    requires
        from <= to <= line@.len(),
    ensures
        from <= r.0 <= r.1 <= to,
        line@.subrange(r.0 as int, r.1 as int) == trimmed(line@.subrange(from as int, to as int)),
{
    let mut a = from;
    while a < to && white_space(line[a])
        invariant
            from <= a <= to <= line@.len(),
            trim_start(line@.subrange(from as int, to as int)) == trim_start(
                line@.subrange(a as int, to as int),
            ),
        decreases to - a,
    {
        proof {
            let s = line@.subrange(a as int, to as int);
            assert(s[0] == line@[a as int]);
            assert(s.drop_first() =~= line@.subrange(a as int + 1, to as int));
        }
        a += 1;
    }
    proof {
        let s = line@.subrange(a as int, to as int);
        if a < to {
            assert(s[0] == line@[a as int]);
        }
        assert(trim_start(s) == s);
    }
    let mut b = to;
    while a < b && white_space(line[b - 1])
        invariant
            from <= a <= b <= to <= line@.len(),
            trim_end(line@.subrange(a as int, to as int)) == trim_end(
                line@.subrange(a as int, b as int),
            ),
        decreases b - a,
    {
        proof {
            let s = line@.subrange(a as int, b as int);
            assert(s.last() == line@[b as int - 1]);
            assert(s.drop_last() =~= line@.subrange(a as int, b as int - 1));
        }
        b -= 1;
    }
    proof {
        let s = line@.subrange(a as int, b as int);
        if a < b {
            assert(s.last() == line@[b as int - 1]);
        }
        assert(trim_end(s) == s);
    }
    (a, b)
}

/// The text of `line[from..to]`.
fn text_between(line: &Vec<char>, from: usize, to: usize) -> (r: String)
    requires
        from <= to <= line@.len(),
    ensures
        r@ == line@.subrange(from as int, to as int),
{
    let mut part: Vec<char> = Vec::new();
    let mut i = from;
    while i < to
        invariant
            from <= i <= to <= line@.len(),
            part@ == line@.subrange(from as int, i as int),
        decreases to - i,
    {
        part.push(line[i]);
        proof {
            assert(line@.subrange(from as int, i as int + 1) =~= line@.subrange(
                from as int,
                i as int,
            ).push(line@[i as int]));
        }
        i += 1;
    }
    text_of(&part)
}

/// Reads one line of the configuration: the combination text and the
/// command text it defines, or `None` for a comment, a blank line and a
/// line without `=>`.
pub fn parse_line(line: &Vec<char>) -> (r: Option<(String, String)>)
    ensures
        r.is_some() == entry_of(line@).is_some(),
        r matches Some(p) ==> entry_of(line@) == Some((p.0@, p.1@)),
{
    let n = line.len();
    if n > 0 && line[0] == '#' {
        return None;
    }
    proof {
        assert(line@.subrange(0, n as int) =~= line@);
    }
    let (a, b) = trim_range(line, 0, n);
    if a == b {
        return None;
    }
    let last = n - 1;
    let mut i: usize = 0;
    while i < last && !(line[i] == '=' && line[i + 1] == '>')
        invariant
            0 <= i <= last,
            last + 1 == line@.len(),
            arrow_from(line@, 0) == arrow_from(line@, i as int),
        decreases last - i,
    {
        i += 1;
    }
    if i >= last {
        return None;
    }
    proof {
        assert(arrow_from(line@, 0) == i);
        assert(line@.take(i as int) =~= line@.subrange(0, i as int));
        assert(line@.skip(i as int + 2) =~= line@.subrange(i as int + 2, n as int));
    }
    let (ka, kb) = trim_range(line, 0, i);
    let (ca, cb) = trim_range(line, i + 2, n);
    let key = text_between(line, ka, kb);
    let command = text_between(line, ca, cb);
    Some((key, command))
}

/// What has been read from the lines `done`: either every entry was valid
/// and `out` holds the bindings, or `bad` is the error of the first entry
/// that was not.
spec fn read_so_far(done: Seq<Seq<char>>, out: Seq<Binding>, bad: Option<ConfigError>) -> bool {
    let es = entries(done);
    match bad {
        None => out.len() == es.len() && (forall|i: int|
            0 <= i < es.len() ==> binding_of(#[trigger] out[i], es[i])),
        Some(e) => exists|j: int| first_bad_entry(es, j) && key_error(es[j].0, e),
    }
}

/// Takes one finished line into account.
fn take_line(
    out: &mut Vec<Binding>,
    bad: &mut Option<ConfigError>,
    line: &Vec<char>,
    Ghost(done): Ghost<Seq<Seq<char>>>,
)
    requires
        read_so_far(done, old(out)@, *old(bad)),
    ensures
        read_so_far(done.push(line@), final(out)@, *final(bad)),
{
    let ghost after = done.push(line@);
    let ghost es = entries(done);
    proof {
        assert(after.drop_last() =~= done);
        assert(after.last() == line@);
    }
    if bad.is_some() {
        proof {
            let e = bad->0;
            let j = choose|j: int| first_bad_entry(es, j) && key_error(es[j].0, e);
            let es2 = entries(after);
            assert(es2[j] == es[j]);
            assert forall|i: int| 0 <= i < j implies all_known(tokens(#[trigger] es2[i].0)) by {
                assert(es2[i] == es[i]);
            }
            assert(first_bad_entry(es2, j));
        }
        return;
    }
    match parse_line(line) {
        None => {},
        Some(pair) => {
            let ghost entry = (pair.0@, pair.1@);
            let ghost es2 = es.push(entry);
            proof {
                assert(entries(after) == es2);
            }
            let (key, command) = pair;
            match key_to_keycode(key.as_str()) {
                Ok(set) => {
                    match Binding::new(set, command) {
                        Ok(b) => {
                            let ghost before = out@;
                            out.push(b);
                            proof {
                                assert forall|i: int| 0 <= i < es2.len() implies binding_of(
                                    #[trigger] out@[i],
                                    es2[i],
                                ) by {
                                    if i < es.len() {
                                        assert(out@[i] == before[i]);
                                        assert(es2[i] == es[i]);
                                    }
                                }
                            }
                        },
                        Err(e) => {
                            // A combination that was read holds at least one
                            // key, so this arm is never taken.
                            assert(false);
                            *bad = Some(e);
                        },
                    }
                },
                Err(e) => {
                    proof {
                        let j = es.len() as int;
                        assert(es2[j] == entry);
                        assert forall|i: int| 0 <= i < j implies all_known(
                            tokens(#[trigger] es2[i].0),
                        ) by {
                            assert(es2[i] == es[i]);
                            assert(binding_of(out@[i], es[i]));
                        }
                        assert(first_bad_entry(es2, j));
                    }
                    *bad = Some(e);
                },
            }
        },
    }
}

/// Reads a whole configuration text.
///
/// Every line that defines an entry gives one binding, in the order of the
/// lines. An entry whose combination holds an unknown key name makes the
/// whole configuration invalid: nothing is skipped, and the error is that
/// of the first such entry.
pub fn parse_config(content: &str) -> (r: Result<Vec<Binding>, ConfigError>)
    ensures
        r.is_ok() <==> all_entries_known(entries(lines_of(content@))),
        r matches Ok(v) ==> v@.len() == entries(lines_of(content@)).len() && (forall|i: int|
            0 <= i < v@.len() ==> binding_of(#[trigger] v@[i], entries(lines_of(content@))[i])),
        r matches Err(e) ==> exists|j: int|
            first_bad_entry(entries(lines_of(content@)), j) && key_error(
                entries(lines_of(content@))[j].0,
                e,
            ),
{
    let n = content.unicode_len();
    let mut out: Vec<Binding> = Vec::new();
    let mut bad: Option<ConfigError> = None;
    let mut cur: Vec<char> = Vec::new();
    let ghost mut done: Seq<Seq<char>> = Seq::empty();
    let mut i: usize = 0;
    proof {
        assert(content@.take(0) =~= Seq::<char>::empty());
        assert(lines_of(content@.take(0)) =~= done.push(cur@));
    }
    while i < n
        invariant
            0 <= i <= n,
            n == content@.len(),
            lines_of(content@.take(i as int)) == done.push(cur@),
            read_so_far(done, out@, bad),
        decreases n - i,
    {
        let c = content.get_char(i);
        proof {
            let p = content@.take(i as int + 1);
            assert(p.drop_last() =~= content@.take(i as int));
            assert(p.last() == c);
            let before = lines_of(p.drop_last());
            assert(before.drop_last() =~= done);
            assert(before.last() == cur@);
        }
        if c == '\n' {
            take_line(&mut out, &mut bad, &cur, Ghost(done));
            proof {
                done = done.push(cur@);
            }
            cur = Vec::new();
        } else {
            cur.push(c);
        }
        i += 1;
    }
    take_line(&mut out, &mut bad, &cur, Ghost(done));
    proof {
        assert(content@.take(i as int) =~= content@);
        assert(lines_of(content@) == done.push(cur@));
    }
    match bad {
        Some(e) => {
            proof {
                let es = entries(lines_of(content@));
                let j = choose|j: int| first_bad_entry(es, j) && key_error(es[j].0, e);
                assert(!all_known(tokens(es[j].0)));
            }
            Err(e)
        },
        None => {
            proof {
                let es = entries(lines_of(content@));
                assert forall|i: int| 0 <= i < es.len() implies all_known(
                    tokens(#[trigger] es[i].0),
                ) by {
                    assert(binding_of(out@[i], es[i]));
                }
            }
            Ok(out)
        },
    }
}

} // verus!

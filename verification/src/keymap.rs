//! The names by which a configuration refers to keys, and the parser for a
//! combination written as key names joined by `+`.

use crate::binding::ConfigError;
use crate::keys::{KeySet, KEY_LIMIT};
use vstd::prelude::*;
use vstd::string::StrSliceExecFns;

verus! {

/// The key code that a lower-case key name stands for, if the name is known.
/// Several names may stand for one key.
pub open spec fn spec_key_code(name: Seq<char>) -> Option<u16> {
    if name == "meta_left"@ || name == "meta"@ {
        Some(125u16)
    } else if name == "ctrl_left"@ || name == "ctrl"@ {
        Some(29u16)
    } else if name == "shift_left"@ || name == "shift"@ {
        Some(42u16)
    } else if name == "alt_left"@ || name == "alt"@ {
        Some(56u16)
    } else if name == "back_slash"@ || name == "\\"@ {
        Some(43u16)
    } else if name == "slash"@ || name == "/"@ {
        Some(53u16)
    } else if name == "enter"@ || name == "return"@ {
        Some(28u16)
    } else if name == "ctrl_right"@ {
        Some(97u16)
    } else if name == "shift_right"@ {
        Some(54u16)
    } else if name == "meta_right"@ {
        Some(126u16)
    } else if name == "alt_right"@ {
        Some(100u16)
    } else if name == "capslock"@ {
        Some(58u16)
    } else if name == "tab"@ {
        Some(15u16)
    } else if name == "0"@ {
        Some(11u16)
    } else if name == "1"@ {
        Some(2u16)
    } else if name == "2"@ {
        Some(3u16)
    } else if name == "3"@ {
        Some(4u16)
    } else if name == "4"@ {
        Some(5u16)
    } else if name == "5"@ {
        Some(6u16)
    } else if name == "6"@ {
        Some(7u16)
    } else if name == "7"@ {
        Some(8u16)
    } else if name == "8"@ {
        Some(9u16)
    } else if name == "9"@ {
        Some(10u16)
    } else if name == "a"@ {
        Some(30u16)
    } else if name == "b"@ {
        Some(48u16)
    } else if name == "c"@ {
        Some(46u16)
    } else if name == "d"@ {
        Some(32u16)
    } else if name == "e"@ {
        Some(18u16)
    } else if name == "f"@ {
        Some(33u16)
    } else if name == "g"@ {
        Some(34u16)
    } else if name == "h"@ {
        Some(35u16)
    } else if name == "i"@ {
        Some(23u16)
    } else if name == "j"@ {
        Some(36u16)
    } else if name == "k"@ {
        Some(37u16)
    } else if name == "l"@ {
        Some(38u16)
    } else if name == "m"@ {
        Some(50u16)
    } else if name == "n"@ {
        Some(49u16)
    } else if name == "o"@ {
        Some(24u16)
    } else if name == "p"@ {
        Some(25u16)
    } else if name == "q"@ {
        Some(16u16)
    } else if name == "r"@ {
        Some(19u16)
    } else if name == "s"@ {
        Some(31u16)
    } else if name == "t"@ {
        Some(20u16)
    } else if name == "u"@ {
        Some(22u16)
    } else if name == "v"@ {
        Some(47u16)
    } else if name == "w"@ {
        Some(17u16)
    } else if name == "x"@ {
        Some(45u16)
    } else if name == "y"@ {
        Some(21u16)
    } else if name == "z"@ {
        Some(44u16)
    } else if name == "up"@ {
        Some(103u16)
    } else if name == "down"@ {
        Some(108u16)
    } else if name == "right"@ {
        Some(106u16)
    } else if name == "left"@ {
        Some(105u16)
    } else if name == "dot"@ || name == "."@ {
        Some(52u16)
    } else if name == "comma"@ || name == ","@ {
        Some(51u16)
    } else if name == "semicolon"@ || name == ";"@ {
        Some(39u16)
    } else if name == "apostrophe"@ || name == "\""@ {
        Some(40u16)
    } else if name == "leftbrace"@ || name == "["@ {
        Some(26u16)
    } else if name == "rightbrace"@ || name == "]"@ {
        Some(27u16)
    } else if name == "numlock"@ {
        Some(69u16)
    } else if name == "scroll_lock"@ {
        Some(70u16)
    } else if name == "minus"@ || name == "-"@ {
        Some(12u16)
    } else if name == "equal"@ || name == "="@ {
        Some(13u16)
    } else if name == "plus"@ {
        Some(78u16)
    } else if name == "grave"@ || name == "`"@ {
        Some(41u16)
    } else if name == "space"@ {
        Some(57u16)
    } else if name == "esc"@ {
        Some(1u16)
    } else if name == "f1"@ {
        Some(59u16)
    } else if name == "f2"@ {
        Some(60u16)
    } else if name == "f3"@ {
        Some(61u16)
    } else if name == "f4"@ {
        Some(62u16)
    } else if name == "f5"@ {
        Some(63u16)
    } else if name == "f6"@ {
        Some(64u16)
    } else if name == "f7"@ {
        Some(65u16)
    } else if name == "f8"@ {
        Some(66u16)
    } else if name == "f9"@ {
        Some(67u16)
    } else if name == "f10"@ {
        Some(68u16)
    } else if name == "f11"@ {
        Some(87u16)
    } else if name == "f12"@ {
        Some(88u16)
    } else if name == "kp0"@ || name == "keypad_0"@ {
        Some(82u16)
    } else if name == "kp1"@ || name == "keypad_1"@ {
        Some(79u16)
    } else if name == "kp2"@ || name == "keypad_2"@ {
        Some(80u16)
    } else if name == "kp3"@ || name == "keypad_3"@ {
        Some(81u16)
    } else if name == "kp4"@ || name == "keypad_4"@ {
        Some(75u16)
    } else if name == "kp5"@ || name == "keypad_5"@ {
        Some(76u16)
    } else if name == "kp6"@ || name == "keypad_6"@ {
        Some(77u16)
    } else if name == "kp7"@ || name == "keypad_7"@ {
        Some(71u16)
    } else if name == "kp8"@ || name == "keypad_8"@ {
        Some(72u16)
    } else if name == "kp9"@ || name == "keypad_9"@ {
        Some(73u16)
    } else if name == "kpdot"@ || name == "keypad_dot"@ {
        Some(83u16)
    } else if name == "kpplus"@ || name == "keypad_plus"@ {
        Some(78u16)
    } else if name == "kpminus"@ || name == "keypad_minus"@ {
        Some(74u16)
    } else {
        None
    }
}

/// Whether two strings hold the same characters.
fn same_text(a: &str, b: &str) -> (r: bool)
    ensures
        r == (a@ == b@),
{
    let n = a.unicode_len();
    if n != b.unicode_len() {
        return false;
    }
    let mut i: usize = 0;
    while i < n
        invariant
            0 <= i <= n,
            n == a@.len(),
            n == b@.len(),
            forall|j: int| 0 <= j < i ==> a@[j] == b@[j],
        decreases n - i,
    {
        if a.get_char(i) != b.get_char(i) {
            return false;
        }
        i += 1;
    }
    assert(a@ =~= b@);
    true
}

/// Looks a lower-case key name up in the key table.
pub fn key_code(name: &str) -> (r: Option<u16>)
    ensures
        r == spec_key_code(name@),
        r matches Some(k) ==> k < KEY_LIMIT,
{
    if same_text(name, "meta_left") || same_text(name, "meta") {
        Some(125)
    } else if same_text(name, "ctrl_left") || same_text(name, "ctrl") {
        Some(29)
    } else if same_text(name, "shift_left") || same_text(name, "shift") {
        Some(42)
    } else if same_text(name, "alt_left") || same_text(name, "alt") {
        Some(56)
    } else if same_text(name, "back_slash") || same_text(name, "\\") {
        Some(43)
    } else if same_text(name, "slash") || same_text(name, "/") {
        Some(53)
    } else if same_text(name, "enter") || same_text(name, "return") {
        Some(28)
    } else if same_text(name, "ctrl_right") {
        Some(97)
    } else if same_text(name, "shift_right") {
        Some(54)
    } else if same_text(name, "meta_right") {
        Some(126)
    } else if same_text(name, "alt_right") {
        Some(100)
    } else if same_text(name, "capslock") {
        Some(58)
    } else if same_text(name, "tab") {
        Some(15)
    } else if same_text(name, "0") {
        Some(11)
    } else if same_text(name, "1") {
        Some(2)
    } else if same_text(name, "2") {
        Some(3)
    } else if same_text(name, "3") {
        Some(4)
    } else if same_text(name, "4") {
        Some(5)
    } else if same_text(name, "5") {
        Some(6)
    } else if same_text(name, "6") {
        Some(7)
    } else if same_text(name, "7") {
        Some(8)
    } else if same_text(name, "8") {
        Some(9)
    } else if same_text(name, "9") {
        Some(10)
    } else if same_text(name, "a") {
        Some(30)
    } else if same_text(name, "b") {
        Some(48)
    } else if same_text(name, "c") {
        Some(46)
    } else if same_text(name, "d") {
        Some(32)
    } else if same_text(name, "e") {
        Some(18)
    } else if same_text(name, "f") {
        Some(33)
    } else if same_text(name, "g") {
        Some(34)
    } else if same_text(name, "h") {
        Some(35)
    } else if same_text(name, "i") {
        Some(23)
    } else if same_text(name, "j") {
        Some(36)
    } else if same_text(name, "k") {
        Some(37)
    } else if same_text(name, "l") {
        Some(38)
    } else if same_text(name, "m") {
        Some(50)
    } else if same_text(name, "n") {
        Some(49)
    } else if same_text(name, "o") {
        Some(24)
    } else if same_text(name, "p") {
        Some(25)
    } else if same_text(name, "q") {
        Some(16)
    } else if same_text(name, "r") {
        Some(19)
    } else if same_text(name, "s") {
        Some(31)
    } else if same_text(name, "t") {
        Some(20)
    } else if same_text(name, "u") {
        Some(22)
    } else if same_text(name, "v") {
        Some(47)
    } else if same_text(name, "w") {
        Some(17)
    } else if same_text(name, "x") {
        Some(45)
    } else if same_text(name, "y") {
        Some(21)
    } else if same_text(name, "z") {
        Some(44)
    } else if same_text(name, "up") {
        Some(103)
    } else if same_text(name, "down") {
        Some(108)
    } else if same_text(name, "right") {
        Some(106)
    } else if same_text(name, "left") {
        Some(105)
    } else if same_text(name, "dot") || same_text(name, ".") {
        Some(52)
    } else if same_text(name, "comma") || same_text(name, ",") {
        Some(51)
    } else if same_text(name, "semicolon") || same_text(name, ";") {
        Some(39)
    } else if same_text(name, "apostrophe") || same_text(name, "\"") {
        Some(40)
    } else if same_text(name, "leftbrace") || same_text(name, "[") {
        Some(26)
    } else if same_text(name, "rightbrace") || same_text(name, "]") {
        Some(27)
    } else if same_text(name, "numlock") {
        Some(69)
    } else if same_text(name, "scroll_lock") {
        Some(70)
    } else if same_text(name, "minus") || same_text(name, "-") {
        Some(12)
    } else if same_text(name, "equal") || same_text(name, "=") {
        Some(13)
    } else if same_text(name, "plus") {
        Some(78)
    } else if same_text(name, "grave") || same_text(name, "`") {
        Some(41)
    } else if same_text(name, "space") {
        Some(57)
    } else if same_text(name, "esc") {
        Some(1)
    } else if same_text(name, "f1") {
        Some(59)
    } else if same_text(name, "f2") {
        Some(60)
    } else if same_text(name, "f3") {
        Some(61)
    } else if same_text(name, "f4") {
        Some(62)
    } else if same_text(name, "f5") {
        Some(63)
    } else if same_text(name, "f6") {
        Some(64)
    } else if same_text(name, "f7") {
        Some(65)
    } else if same_text(name, "f8") {
        Some(66)
    } else if same_text(name, "f9") {
        Some(67)
    } else if same_text(name, "f10") {
        Some(68)
    } else if same_text(name, "f11") {
        Some(87)
    } else if same_text(name, "f12") {
        Some(88)
    } else if same_text(name, "kp0") || same_text(name, "keypad_0") {
        Some(82)
    } else if same_text(name, "kp1") || same_text(name, "keypad_1") {
        Some(79)
    } else if same_text(name, "kp2") || same_text(name, "keypad_2") {
        Some(80)
    } else if same_text(name, "kp3") || same_text(name, "keypad_3") {
        Some(81)
    } else if same_text(name, "kp4") || same_text(name, "keypad_4") {
        Some(75)
    } else if same_text(name, "kp5") || same_text(name, "keypad_5") {
        Some(76)
    } else if same_text(name, "kp6") || same_text(name, "keypad_6") {
        Some(77)
    } else if same_text(name, "kp7") || same_text(name, "keypad_7") {
        Some(71)
    } else if same_text(name, "kp8") || same_text(name, "keypad_8") {
        Some(72)
    } else if same_text(name, "kp9") || same_text(name, "keypad_9") {
        Some(73)
    } else if same_text(name, "kpdot") || same_text(name, "keypad_dot") {
        Some(83)
    } else if same_text(name, "kpplus") || same_text(name, "keypad_plus") {
        Some(78)
    } else if same_text(name, "kpminus") || same_text(name, "keypad_minus") {
        Some(74)
    } else {
        None
    }
}

/// The lower-case form of a text, as `str::to_lowercase` computes it.
pub uninterp spec fn lowercase_of(s: Seq<char>) -> Seq<char>;

/// Calls `str::to_lowercase`, whose result depends on the text alone: the
/// contract names that result and claims nothing else of it.
#[verifier::external_body]
fn lowercase(s: &str) -> (r: String)
    ensures
        r@ == lowercase_of(s@),
{
    s.to_lowercase()
}

/// Calls `String::from_iter` on the characters of a vector: the contract
/// claims that the string holds those characters in the same order.
#[verifier::external_body]
pub(crate) fn text_of(chars: &Vec<char>) -> (r: String)
    ensures
        r@ == chars@,
{
    String::from_iter(chars.iter())
}

/// The key names of a combination text: blanks are dropped, and what is
/// left is cut at every `+`. A text without `+` is one token; two adjacent
/// `+`, or one at either end, give an empty token.
pub open spec fn tokens(text: Seq<char>) -> Seq<Seq<char>>
    decreases text.len(),
{
    if text.len() == 0 {
        seq![Seq::<char>::empty()]
    } else {
        let before = tokens(text.drop_last());
        let c = text.last();
        if c == '+' {
            before.push(Seq::<char>::empty())
        } else if c == ' ' {
            before
        } else {
            before.drop_last().push(before.last().push(c))
        }
    }
}

/// The texts of `parts` written one after the other with `sep` between
/// each two neighbours.
pub open spec fn joined(parts: Seq<Seq<char>>, sep: char) -> Seq<char>
    decreases parts.len(),
{
    if parts.len() == 0 {
        Seq::<char>::empty()
    } else if parts.len() == 1 {
        parts[0]
    } else {
        joined(parts.drop_last(), sep).push(sep) + parts.last()
    }
}

/// The predicate that selects every character but the blank.
pub open spec fn not_blank() -> spec_fn(char) -> bool {
    |c: char| c != ' '
}

/// Cutting a text into tokens loses nothing but the blanks: no token holds
/// a `+` or a blank, and the tokens joined by `+` are the text without its
/// blanks.
pub proof fn tokens_rejoin(text: Seq<char>)
    ensures
        tokens(text).len() >= 1,
        joined(tokens(text), '+') == text.filter(not_blank()),
        forall|i: int, j: int|
            0 <= i < tokens(text).len() && 0 <= j < tokens(text)[i].len() ==> {
                &&& #[trigger] tokens(text)[i][j] != '+'
                &&& tokens(text)[i][j] != ' '
            },
    decreases text.len(),
{
    reveal(Seq::filter);
    if text.len() > 0 {
        let rest = text.drop_last();
        let c = text.last();
        let before = tokens(rest);
        let now = tokens(text);
        tokens_rejoin(rest);
        if c == '+' {
            assert(now.drop_last() =~= before);
            assert(joined(now, '+') =~= joined(before, '+').push('+'));
        } else if c != ' ' {
            let grown = before.last().push(c);
            if before.len() == 1 {
                assert(now[0] == grown);
            } else {
                assert(now.drop_last() =~= before.drop_last());
                assert(joined(now, '+') =~= joined(before, '+').push(c));
            }
            assert forall|i: int, j: int|
                0 <= i < now.len() && 0 <= j < now[i].len() implies {
                &&& #[trigger] now[i][j] != '+'
                &&& now[i][j] != ' '
            } by {
                if i < now.len() - 1 {
                    assert(now[i] == before[i]);
                } else if j < before.last().len() {
                    assert(now[i][j] == before[i][j]);
                }
            }
        }
    }
}

/// The key code of a token: the token is put in lower case and looked up.
pub open spec fn token_code(token: Seq<char>) -> Option<u16> {
    spec_key_code(lowercase_of(token))
}

/// Whether every token names a key.
pub open spec fn all_known(toks: Seq<Seq<char>>) -> bool {
    forall|j: int| 0 <= j < toks.len() ==> token_code(#[trigger] toks[j]) is Some
}

/// Whether some token names the key `k`.
pub open spec fn has_code(toks: Seq<Seq<char>>, k: u16) -> bool {
    exists|j: int| 0 <= j < toks.len() && token_code(#[trigger] toks[j]) == Some(k)
}

/// Whether the token at index `j` is the first that names no key.
pub open spec fn first_unknown(toks: Seq<Seq<char>>, j: int) -> bool {
    &&& 0 <= j < toks.len()
    &&& token_code(toks[j]) is None
    &&& forall|i: int| 0 <= i < j ==> token_code(#[trigger] toks[i]) is Some
}

/// Whether `e` is the error that the combination text `key` deserves: it
/// carries the first token that names no key.
pub open spec fn key_error(key: Seq<char>, e: ConfigError) -> bool {
    e matches ConfigError::UnknownKey(t) && exists|j: int|
        first_unknown(tokens(key), j) && t@ == tokens(key)[j]
}

/// What has been gathered from the tokens `done`: either all of them were
/// known and `set` holds their keys, or `bad` is the first unknown one.
spec fn gathered(done: Seq<Seq<char>>, set: Set<u16>, bad: Option<String>) -> bool {
    match bad {
        None => all_known(done) && (forall|k: u16| set.contains(k) <==> has_code(done, k)),
        Some(t) => exists|j: int| first_unknown(done, j) && t@ == done[j],
    }
}

/// Takes one finished token into account.
fn take_token(
    set: &mut KeySet,
    bad: &mut Option<String>,
    token: &Vec<char>,
    Ghost(done): Ghost<Seq<Seq<char>>>,
)
    requires
        gathered(done, old(set)@, *old(bad)),
    ensures
        gathered(done.push(token@), final(set)@, *final(bad)),
{
    let ghost after = done.push(token@);
    if bad.is_some() {
        proof {
            let t = bad->0;
            let j = choose|j: int| first_unknown(done, j) && t@ == done[j];
            assert(after[j] == done[j]);
            assert forall|i: int| 0 <= i < j implies token_code(#[trigger] after[i]) is Some by {
                assert(after[i] == done[i]);
            }
            assert(first_unknown(after, j));
        }
        return;
    }
    let text = text_of(token);
    let lower = lowercase(text.as_str());
    match key_code(lower.as_str()) {
        Some(k) => {
            let ghost before = set@;
            set.insert(k);
            proof {
                assert(token_code(after[done.len() as int]) == Some(k));
                assert forall|j: int| 0 <= j < after.len() implies token_code(
                    #[trigger] after[j],
                ) is Some by {
                    if j < done.len() {
                        assert(after[j] == done[j]);
                    }
                }
                assert forall|c: u16| set@.contains(c) <==> has_code(after, c) by {
                    if has_code(after, c) {
                        let j = choose|j: int|
                            0 <= j < after.len() && token_code(#[trigger] after[j]) == Some(c);
                        if j < done.len() {
                            assert(after[j] == done[j]);
                            assert(has_code(done, c));
                        }
                    }
                    if has_code(done, c) {
                        let j = choose|j: int|
                            0 <= j < done.len() && token_code(#[trigger] done[j]) == Some(c);
                        assert(after[j] == done[j]);
                    }
                }
            }
        },
        None => {
            proof {
                let j = done.len() as int;
                assert(after[j] == token@);
                assert forall|i: int| 0 <= i < j implies token_code(#[trigger] after[i]) is Some by {
                    assert(after[i] == done[i]);
                }
                assert(first_unknown(after, j));
            }
            *bad = Some(text);
        },
    }
}

/// Reads a combination written as key names joined by `+`, such as
/// `ctrl + enter`. Blanks are ignored and letter case does not matter.
///
/// The result holds the keys that the tokens name. A token that names no
/// key makes the whole combination invalid; the error carries the first
/// such token as written, blanks removed.
pub fn key_to_keycode(input: &str) -> (r: Result<KeySet, ConfigError>)
    ensures
        r.is_ok() <==> all_known(tokens(input@)),
        r matches Ok(s) ==> s@ != Set::<u16>::empty() && (forall|k: u16|
            s@.contains(k) <==> has_code(tokens(input@), k)),
        r matches Err(e) ==> key_error(input@, e),
{
    let n = input.unicode_len();
    let mut set = KeySet::new();
    let mut bad: Option<String> = None;
    let mut cur: Vec<char> = Vec::new();
    let ghost mut done: Seq<Seq<char>> = Seq::empty();
    let mut i: usize = 0;
    proof {
        assert(input@.take(0) =~= Seq::<char>::empty());
        assert(tokens(input@.take(0)) =~= done.push(cur@));
    }
    while i < n
        invariant
            0 <= i <= n,
            n == input@.len(),
            tokens(input@.take(i as int)) == done.push(cur@),
            gathered(done, set@, bad),
        decreases n - i,
    {
        let c = input.get_char(i);
        proof {
            let p = input@.take(i as int + 1);
            assert(p.drop_last() =~= input@.take(i as int));
            assert(p.last() == c);
            let before = tokens(p.drop_last());
            assert(before.drop_last() =~= done);
            assert(before.last() == cur@);
        }
        if c == '+' {
            take_token(&mut set, &mut bad, &cur, Ghost(done));
            proof {
                done = done.push(cur@);
            }
            cur = Vec::new();
        } else if c != ' ' {
            cur.push(c);
        }
        i += 1;
    }
    take_token(&mut set, &mut bad, &cur, Ghost(done));
    proof {
        assert(input@.take(i as int) =~= input@);
        let toks = tokens(input@);
        assert(toks == done.push(cur@));
    }
    match bad {
        Some(t) => Err(ConfigError::UnknownKey(t)),
        None => {
            proof {
                let toks = tokens(input@);
                let k = token_code(toks[0])->0;
                assert(has_code(toks, k));
                assert(set@.contains(k));
            }
            Ok(set)
        },
    }
}

} // verus!

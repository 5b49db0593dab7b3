use vstd::prelude::*;

use crate::text::push_char;
use vstd::string::StringSliceAdditionalSpecFns;

verus! {

/// Bytes that stand for themselves in a file name: ASCII letters and digits,
/// `.`, `_` and `-`.
pub open spec fn is_unreserved(b: u8) -> bool {
    (0x30 <= b <= 0x39) || (0x41 <= b <= 0x5a) || (0x61 <= b <= 0x7a) || b == 0x2e || b == 0x5f
        || b == 0x2d
}

/// The upper-case hexadecimal digit of a value below 16.
pub open spec fn hex_digit(n: u8) -> char {
    if n < 10 {
        (n + 0x30) as char
    } else {
        (n + 0x37) as char
    }
}

/// The value of an upper-case hexadecimal digit.
pub open spec fn hex_value(c: char) -> int {
    if c <= '9' {
        c as int - 0x30
    } else {
        c as int - 0x37
    }
}

/// How one byte of a pane id appears in a file name: itself, or `%` and two
/// upper-case hex digits.
pub open spec fn escape_byte(b: u8) -> Seq<char> {
    if is_unreserved(b) {
        seq![b as char]
    } else {
        seq!['%', hex_digit(b / 16), hex_digit(b % 16)]
    }
}

/// The file-name form of a pane id's bytes, byte by byte.
pub open spec fn sanitized(bytes: Seq<u8>) -> Seq<char>
    decreases bytes.len(),
{
    if bytes.len() == 0 {
        Seq::empty()
    } else {
        escape_byte(bytes[0]) + sanitized(bytes.drop_first())
    }
}

/// Reads a file name back into the bytes it was made from.
pub open spec fn unsanitized(cs: Seq<char>) -> Seq<u8>
    decreases cs.len(),
{
    if cs.len() == 0 {
        Seq::empty()
    } else if cs[0] == '%' && cs.len() >= 3 {
        seq![(hex_value(cs[1]) * 16 + hex_value(cs[2])) as u8] + unsanitized(cs.subrange(3, cs.len() as int))
    } else {
        seq![cs[0] as u8] + unsanitized(cs.drop_first())
    }
}

proof fn lemma_sanitized_push(bytes: Seq<u8>, b: u8)
    ensures
        sanitized(bytes.push(b)) == sanitized(bytes) + escape_byte(b),
    decreases bytes.len(),
{
    if bytes.len() == 0 {
        assert(bytes.push(b).drop_first() =~= Seq::<u8>::empty());
        assert(bytes.push(b)[0] == b);
        assert(sanitized(Seq::<u8>::empty()) == Seq::<char>::empty());
        assert(sanitized(bytes.push(b)) =~= escape_byte(b) + Seq::<char>::empty());
        assert(sanitized(bytes) == Seq::<char>::empty());
    } else {
        assert(bytes.push(b).drop_first() =~= bytes.drop_first().push(b));
        lemma_sanitized_push(bytes.drop_first(), b);
        assert(sanitized(bytes.push(b)) =~= sanitized(bytes) + escape_byte(b));
    }
}

proof fn lemma_unsanitized_sanitized(bytes: Seq<u8>)
    ensures
        unsanitized(sanitized(bytes)) == bytes,
    decreases bytes.len(),
{
    if bytes.len() > 0 {
        let b = bytes[0];
        let rest = bytes.drop_first();
        let cs = sanitized(bytes);
        lemma_unsanitized_sanitized(rest);
        if is_unreserved(b) {
            assert(cs.drop_first() =~= sanitized(rest));
            assert(cs[0] == b as char);
            assert(cs[0] != '%');
        } else {
            assert(cs.subrange(3, cs.len() as int) =~= sanitized(rest));
            let hi = b / 16;
            let lo = b % 16;
            assert(hex_value(hex_digit(hi)) == hi);
            assert(hex_value(hex_digit(lo)) == lo);
            assert(hi * 16 + lo == b);
        }
        assert(unsanitized(cs) =~= bytes);
    }
}

/// Sanitising is collision-free: distinct pane ids never share a file name.
pub proof fn lemma_sanitize_collision_free(a: Seq<u8>, b: Seq<u8>)
    requires
        sanitized(a) == sanitized(b),
    ensures
        a == b,
{
    lemma_unsanitized_sanitized(a);
    lemma_unsanitized_sanitized(b);
}

/// Sanitising is readable: a pane id made only of unreserved bytes is its own
/// file name.
pub proof fn lemma_sanitize_keeps_plain_ids(bytes: Seq<u8>)
    requires
        forall|i: int| 0 <= i < bytes.len() ==> is_unreserved(#[trigger] bytes[i]),
    ensures
        sanitized(bytes) == bytes.map_values(|b: u8| b as char),
    decreases bytes.len(),
{
    if bytes.len() > 0 {
        lemma_sanitize_keeps_plain_ids(bytes.drop_first());
        assert(sanitized(bytes) =~= bytes.map_values(|b: u8| b as char));
    }
}

fn hex_char(n: u8) -> (c: char)
    requires
        n < 16,
    ensures
        c == hex_digit(n),
{
    if n < 10 {
        (n + 0x30) as char
    } else {
        (n + 0x37) as char
    }
}

/// A pane id as a file name: unreserved bytes are kept, every other byte is
/// written `%XX` in upper-case hex, so the result is readable and distinct ids
/// never collide.
pub fn sanitize_pane_id(pane_id: &str) -> (out: String)
    ensures
        out@ == sanitized(pane_id.spec_bytes()),
{
    let bytes = pane_id.as_bytes();
    let mut out = String::new();
    let mut i: usize = 0;
    while i < bytes.len()
        invariant
            bytes@ == pane_id.spec_bytes(),
            i <= bytes@.len(),
            out@ == sanitized(bytes@.take(i as int)),
        decreases bytes@.len() - i,
    {
        let b = bytes[i];
        proof {
            lemma_sanitized_push(bytes@.take(i as int), b);
            assert(bytes@.take(i + 1) =~= bytes@.take(i as int).push(b));
        }
        if (0x30 <= b && b <= 0x39) || (0x41 <= b && b <= 0x5a) || (0x61 <= b && b <= 0x7a)
            || b == 0x2e || b == 0x5f || b == 0x2d {
            push_char(&mut out, b as char);
        } else {
            push_char(&mut out, '%');
            push_char(&mut out, hex_char(b / 16));
            push_char(&mut out, hex_char(b % 16));
        }
        assert(out@ =~= sanitized(bytes@.take(i + 1)));
        i = i + 1;
    }
    assert(bytes@.take(bytes@.len() as int) =~= bytes@);
    out
}

/// `dir` joined with a relative file `name`, as `PathBuf::push` joins them:
/// the name alone under an empty directory, else with one `/` between.
pub open spec fn joined(dir: Seq<char>, name: Seq<char>) -> Seq<char> {
    if dir.len() == 0 {
        name
    } else if dir.last() == '/' {
        dir + name
    } else {
        dir + seq!['/'] + name
    }
}

/// The path of a pane's file with the given extension in the state directory.
fn state_file(state_dir: &str, pane_id: &str, ext: &str) -> (p: String)
    ensures
        p@ == joined(state_dir@, sanitized(pane_id.spec_bytes()) + ext@),
{
    let mut p = String::from_str(state_dir);
    let n = state_dir.unicode_len();
    if n > 0 && state_dir.get_char(n - 1) != '/' {
        push_char(&mut p, '/');
    }
    let name = sanitize_pane_id(pane_id);
    p.append(name.as_str());
    p.append(ext);
    p
}

/// The pidfile of a pane's watcher: `<sanitized pane id>.pid` in the state
/// directory.
pub fn pidfile(state_dir: &str, pane_id: &str) -> (p: String)
    ensures
        p@ == joined(state_dir@, sanitized(pane_id.spec_bytes()) + ".pid"@),
{
    state_file(state_dir, pane_id, ".pid")
}

/// The log file of a pane's watcher: `<sanitized pane id>.log` in the state
/// directory.
pub fn logfile(state_dir: &str, pane_id: &str) -> (p: String)
    ensures
        p@ == joined(state_dir@, sanitized(pane_id.spec_bytes()) + ".log"@),
{
    state_file(state_dir, pane_id, ".log")
}

/// The pidfile of an already-sanitised name.
pub fn pidfile_sanitized(state_dir: &str, sanitized_name: &str) -> (p: String)
    ensures
        p@ == joined(state_dir@, sanitized_name@ + ".pid"@),
{
    let mut p = String::from_str(state_dir);
    let n = state_dir.unicode_len();
    if n > 0 && state_dir.get_char(n - 1) != '/' {
        push_char(&mut p, '/');
    }
    p.append(sanitized_name);
    p.append(".pid");
    p
}

/// The name a pidfile was made for: the file name without its `.pid` suffix,
/// or `None` for a file that is not a pidfile.
pub open spec fn pid_stem(name: Seq<char>) -> Option<Seq<char>> {
    if name.len() >= 4 && name.subrange(name.len() - 4, name.len() as int) == ".pid"@ {
        Some(name.subrange(0, name.len() - 4))
    } else {
        None
    }
}

/// The sanitised pane id of a pidfile's name (`str::strip_suffix(".pid")`).
pub fn pidfile_stem(file_name: &str) -> (r: Option<String>)
    ensures
        match r {
            Some(stem) => pid_stem(file_name@) == Some(stem@),
            None => pid_stem(file_name@) is None,
        },
{
    let n = file_name.unicode_len();
    if n >= 4 && crate::text::str_eq(file_name.substring_char(n - 4, n), ".pid") {
        Some(String::from_str(file_name.substring_char(0, n - 4)))
    } else {
        None
    }
}

/// Unicode `White_Space`, as `char::is_whitespace` and `str::trim` use it.
pub open spec fn is_whitespace(c: char) -> bool {
    ('\t' <= c && c <= '\r') || c == ' ' || c == '\u{85}' || c == '\u{a0}' || c == '\u{1680}' || (
    '\u{2000}' <= c && c <= '\u{200a}') || c == '\u{2028}' || c == '\u{2029}' || c == '\u{202f}'
        || c == '\u{205f}' || c == '\u{3000}'
}

fn whitespace(c: char) -> (r: bool)
    ensures
        r == is_whitespace(c),
{
    ('\t' <= c && c <= '\r') || c == ' ' || c == '\u{85}' || c == '\u{a0}' || c == '\u{1680}' || (
    '\u{2000}' <= c && c <= '\u{200a}') || c == '\u{2028}' || c == '\u{2029}' || c == '\u{202f}'
        || c == '\u{205f}' || c == '\u{3000}'
}

/// The text without leading whitespace.
pub open spec fn trim_start(s: Seq<char>) -> Seq<char>
    decreases s.len(),
{
    if s.len() > 0 && is_whitespace(s[0]) {
        trim_start(s.drop_first())
    } else {
        s
    }
}

/// The text without trailing whitespace.
pub open spec fn trim_end(s: Seq<char>) -> Seq<char>
    decreases s.len(),
{
    if s.len() > 0 && is_whitespace(s.last()) {
        trim_end(s.drop_last())
    } else {
        s
    }
}

/// The text without leading and trailing whitespace (`str::trim`).
pub open spec fn trimmed(s: Seq<char>) -> Seq<char> {
    trim_end(trim_start(s))
}

/// An ASCII decimal digit.
pub open spec fn is_digit(c: char) -> bool {
    '0' <= c && c <= '9'
}

/// The value of a string of decimal digits.
pub open spec fn digits_value(s: Seq<char>) -> int
    decreases s.len(),
{
    if s.len() == 0 {
        0
    } else {
        digits_value(s.drop_last()) * 10 + (s.last() as int - 0x30)
    }
}

/// The digits after an optional sign.
pub open spec fn unsigned_part(s: Seq<char>) -> Seq<char> {
    if s.len() > 0 && (s[0] == '-' || s[0] == '+') {
        s.drop_first()
    } else {
        s
    }
}

/// The value an optional sign and digits denote.
pub open spec fn signed_value(s: Seq<char>) -> int {
    if s.len() > 0 && s[0] == '-' {
        -digits_value(unsigned_part(s))
    } else {
        digits_value(unsigned_part(s))
    }
}

/// `i32`'s `FromStr`: an optional `+` or `-`, then one or more ASCII digits,
/// denoting a value within the range of `i32`.
pub open spec fn parsed_i32(s: Seq<char>) -> Option<i32> {
    let ds = unsigned_part(s);
    if ds.len() > 0 && (forall|i: int| 0 <= i < ds.len() ==> is_digit(#[trigger] ds[i]))
        && i32::MIN <= signed_value(s) <= i32::MAX {
        Some(signed_value(s) as i32)
    } else {
        None
    }
}

/// The pid a pidfile holds: its text, trimmed, read as an `i32`.
pub open spec fn pidfile_pid(text: Seq<char>) -> Option<i32> {
    parsed_i32(trimmed(text))
}

/// Past this, a digit string is out of `i32`'s range whatever its sign.
const DIGITS_CAP: i64 = 2_147_483_649;

proof fn lemma_trim_start_skip(s: Seq<char>, i: int)
    requires
        0 <= i <= s.len(),
        forall|j: int| 0 <= j < i ==> is_whitespace(#[trigger] s[j]),
    ensures
        trim_start(s) == trim_start(s.subrange(i, s.len() as int)),
    decreases i,
{
    if i > 0 {
        assert(s.drop_first().subrange(i - 1, s.drop_first().len() as int) =~= s.subrange(
            i,
            s.len() as int,
        ));
        assert(is_whitespace(s[0]));
        assert(trim_start(s) == trim_start(s.drop_first()));
        lemma_trim_start_skip(s.drop_first(), i - 1);
    } else {
        assert(s.subrange(0, s.len() as int) =~= s);
    }
}

proof fn lemma_trim_end_drop(s: Seq<char>, k: int)
    requires
        0 <= k <= s.len(),
        forall|j: int| k <= j < s.len() ==> is_whitespace(#[trigger] s[j]),
    ensures
        trim_end(s) == trim_end(s.subrange(0, k)),
    decreases s.len() - k,
{
    if k < s.len() {
        assert(s.drop_last().subrange(0, k) =~= s.subrange(0, k));
        assert(is_whitespace(s.last()));
        assert(trim_end(s) == trim_end(s.drop_last()));
        lemma_trim_end_drop(s.drop_last(), k);
    } else {
        assert(s.subrange(0, k) =~= s);
    }
}

proof fn lemma_digits_step(s: Seq<char>, c: char)
    ensures
        digits_value(s.push(c)) == digits_value(s) * 10 + (c as int - 0x30),
{
    assert(s.push(c).drop_last() =~= s);
}

/// Reads the pid out of a pidfile's text (`text.trim().parse::<i32>()`).
pub fn parse_pid(text: &str) -> (r: Option<i32>)
    ensures
        r == pidfile_pid(text@),
{
    let n = text.unicode_len();
    let mut lo: usize = 0;
    while lo < n && whitespace(text.get_char(lo))
        invariant
            n == text@.len(),
            lo <= n,
            forall|j: int| 0 <= j < lo ==> is_whitespace(#[trigger] text@[j]),
        decreases n - lo,
    {
        lo = lo + 1;
    }
    proof {
        lemma_trim_start_skip(text@, lo as int);
    }
    let ghost rest = text@.subrange(lo as int, n as int);
    assert(trim_start(text@) == rest) by {
        if rest.len() > 0 {
            assert(rest[0] == text@[lo as int]);
        }
    }
    let mut hi: usize = n;
    while hi > lo && whitespace(text.get_char(hi - 1))
        invariant
            n == text@.len(),
            lo <= hi <= n,
            rest == text@.subrange(lo as int, n as int),
            forall|j: int| hi <= j < n ==> is_whitespace(#[trigger] text@[j]),
        decreases hi,
    {
        hi = hi - 1;
    }
    proof {
        assert forall|j: int| hi - lo <= j < rest.len() implies is_whitespace(#[trigger] rest[j]) by {
            assert(rest[j] == text@[j + lo]);
        }
        lemma_trim_end_drop(rest, hi - lo);
    }
    let ghost t = text@.subrange(lo as int, hi as int);
    assert(trimmed(text@) == t) by {
        assert(rest.subrange(0, hi - lo) =~= t);
        if t.len() > 0 {
            assert(t.last() == text@[hi - 1]);
        }
    }
    // Sign.
    let mut start = lo;
    let mut neg = false;
    if lo < hi {
        let c = text.get_char(lo);
        if c == '-' {
            neg = true;
            start = lo + 1;
        } else if c == '+' {
            start = lo + 1;
        }
    }
    let ghost ds = text@.subrange(start as int, hi as int);
    assert(unsigned_part(t) =~= ds);
    if start >= hi {
        assert(ds.len() == 0);
        return None;
    }
    // Digits, with the value capped once it is out of range.
    let mut acc: i64 = 0;
    let mut i: usize = start;
    while i < hi
        invariant
            n == text@.len(),
            start <= i <= hi <= n,
            ds == text@.subrange(start as int, hi as int),
            trimmed(text@) == t,
            unsigned_part(t) == ds,
            forall|j: int| start <= j < i ==> is_digit(#[trigger] text@[j]),
            acc as int == if digits_value(text@.subrange(start as int, i as int)) < DIGITS_CAP {
                digits_value(text@.subrange(start as int, i as int))
            } else {
                DIGITS_CAP as int
            },
            digits_value(text@.subrange(start as int, i as int)) >= 0,
        decreases hi - i,
    {
        let c = text.get_char(i);
        if !('0' <= c && c <= '9') {
            assert(ds[i - start] == c);
            assert(!is_digit(ds[i - start]));
            return None;
        }
        let d = (c as u32 - 0x30) as i64;
        proof {
            lemma_digits_step(text@.subrange(start as int, i as int), c);
            assert(text@.subrange(start as int, i + 1) =~= text@.subrange(start as int, i as int).push(c));
        }
        let next = acc * 10 + d;
        acc = if next < DIGITS_CAP {
            next
        } else {
            DIGITS_CAP
        };
        i = i + 1;
    }
    assert(text@.subrange(start as int, hi as int) == ds);
    assert(forall|j: int| 0 <= j < ds.len() ==> is_digit(#[trigger] ds[j])) by {
        assert forall|j: int| 0 <= j < ds.len() implies is_digit(#[trigger] ds[j]) by {
            assert(ds[j] == text@[j + start]);
        }
    }
    if neg {
        assert(t[0] == '-');
        if acc <= 2_147_483_648 {
            Some((-acc) as i32)
        } else {
            None
        }
    } else {
        if lo < hi {
            assert(t[0] != '-');
        }
        if acc <= 2_147_483_647 {
            Some(acc as i32)
        } else {
            None
        }
    }
}

/// Distinct pane ids get distinct file names, and so distinct pidfiles in one
/// state directory: the watchers of different panes never share a pidfile.
pub proof fn lemma_pidfiles_distinct(state_dir: Seq<char>, a: &str, b: &str)
    requires
        a@ != b@,
    ensures
        sanitized(a.spec_bytes()) != sanitized(b.spec_bytes()),
        joined(state_dir, sanitized(a.spec_bytes()) + ".pid"@) != joined(
            state_dir,
            sanitized(b.spec_bytes()) + ".pid"@,
        ),
{
    broadcast use vstd::utf8::encode_utf8_decode_utf8;

    if sanitized(a.spec_bytes()) == sanitized(b.spec_bytes()) {
        lemma_sanitize_collision_free(a.spec_bytes(), b.spec_bytes());
        assert(vstd::utf8::decode_utf8(vstd::utf8::encode_utf8(a@)) == a@);
        assert(vstd::utf8::decode_utf8(vstd::utf8::encode_utf8(b@)) == b@);
    }
    reveal_strlit(".pid");
    let na = sanitized(a.spec_bytes()) + ".pid"@;
    let nb = sanitized(b.spec_bytes()) + ".pid"@;
    if joined(state_dir, na) == joined(state_dir, nb) {
        let ja = joined(state_dir, na);
        let jb = joined(state_dir, nb);
        let prefix = if state_dir.len() == 0 {
            Seq::<char>::empty()
        } else if state_dir.last() == '/' {
            state_dir
        } else {
            state_dir + seq!['/']
        };
        assert(ja =~= prefix + na);
        assert(jb =~= prefix + nb);
        assert(na =~= ja.subrange(prefix.len() as int, ja.len() as int));
        assert(nb =~= jb.subrange(prefix.len() as int, jb.len() as int));
        assert(na.subrange(0, na.len() - 4) =~= sanitized(a.spec_bytes()));
        assert(nb.subrange(0, nb.len() - 4) =~= sanitized(b.spec_bytes()));
    }
}

/// Where the watchers' files live: `HERDR_PLUGIN_STATE_DIR` when herdr sets
/// it, else `herdr-espresso` in the temporary directory.
pub open spec fn state_dir_text(env_dir: Option<Seq<char>>, temp_dir: Seq<char>) -> Seq<char> {
    match env_dir {
        Some(d) => d,
        None => joined(temp_dir, "herdr-espresso"@),
    }
}

/// The state directory, from the value of `HERDR_PLUGIN_STATE_DIR` (if set)
/// and the system's temporary directory.
pub fn state_dir_from(env_dir: Option<String>, temp_dir: &str) -> (d: String)
    ensures
        d@ == state_dir_text(
            match env_dir {
                Some(e) => Some(e@),
                None => None,
            },
            temp_dir@,
        ),
{
    match env_dir {
        Some(d) => d,
        None => {
            let mut d = String::from_str(temp_dir);
            let n = temp_dir.unicode_len();
            if n > 0 && temp_dir.get_char(n - 1) != '/' {
                push_char(&mut d, '/');
            }
            d.append("herdr-espresso");
            d
        },
    }
}

} // verus!

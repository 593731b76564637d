//! The registry's persisted form: a JSON object, written and read here.
//!
//! The encoder emits one canonical layout (no extra whitespace); the parser
//! reads exactly that layout back. Saving and then loading a registry
//! reproduces its records, which `lemma_save_load_round_trip` proves.
//! The caller does the file I/O and hands the text in and out.

use vstd::prelude::*;

use crate::error::FlockerError;
use crate::state::{ContainerInfo, ContainerView, DataDirConfig, DataDirView, State};
use crate::state::{opt_dir_view, opt_str_view, views_of, wf_records};
use crate::strutil::{chars_of, dec_digits, is_digit, string_of, u64_to_digits};
use crate::strutil::{lemma_val_monotone, val_of_digits};

verus! {

// ---------------------------------------------------------------------------
// The canonical text, at the specification level
// ---------------------------------------------------------------------------

/// How one character appears inside a JSON string: quotes and backslashes
/// carry a backslash, everything else stands as itself.
pub open spec fn esc_char(c: char) -> Seq<char> {
    if c == '"' {
        seq!['\\', '"']
    } else if c == '\\' {
        seq!['\\', '\\']
    } else {
        seq![c]
    }
}

/// The escaped body of a JSON string.
pub open spec fn esc(s: Seq<char>) -> Seq<char>
    decreases s.len(),
{
    if s.len() == 0 {
        Seq::empty()
    } else {
        esc_char(s[0]) + esc(s.drop_first())
    }
}

/// A JSON string: the escaped body between quotes.
pub open spec fn json_str(s: Seq<char>) -> Seq<char> {
    seq!['"'] + esc(s) + seq!['"']
}

/// An optional string: `null` or a JSON string.
pub open spec fn json_opt_str(o: Option<Seq<char>>) -> Seq<char> {
    match o {
        None => "null"@,
        Some(s) => json_str(s),
    }
}

/// A data directory object.
pub open spec fn json_dir(d: DataDirView) -> Seq<char> {
    "{\"relative_path\":"@ + json_opt_str(d.relative_path) + ",\"absolute_path\":"@ + json_str(
        d.absolute_path,
    ) + "}"@
}

/// An optional data directory: `null` or the object.
pub open spec fn json_opt_dir(o: Option<DataDirView>) -> Seq<char> {
    match o {
        None => "null"@,
        Some(d) => json_dir(d),
    }
}

/// One container record as a JSON object.
pub open spec fn json_rec(c: ContainerView) -> Seq<char> {
    "{\"id\":"@ + json_str(c.id) + ",\"name\":"@ + json_str(c.name) + ",\"port\":"@ + dec_digits(
        c.port as nat,
    ) + ",\"data_dir\":"@ + json_opt_dir(c.data_dir) + ",\"image_tag\":"@ + json_str(c.image_tag)
        + ",\"last_start\":"@ + json_opt_str(c.last_start) + "}"@
}

/// One map entry: the record keyed by its id.
pub open spec fn json_entry(c: ContainerView) -> Seq<char> {
    json_str(c.id) + ":"@ + json_rec(c)
}

/// The entries from index `i` on, separated by commas.
pub open spec fn json_entries_from(s: Seq<ContainerView>, i: int) -> Seq<char>
    decreases s.len() - i,
{
    if i < 0 || i >= s.len() {
        Seq::empty()
    } else if i == s.len() - 1 {
        json_entry(s[i])
    } else {
        json_entry(s[i]) + ","@ + json_entries_from(s, i + 1)
    }
}

/// The whole registry as one JSON object.
pub open spec fn json_state(s: Seq<ContainerView>) -> Seq<char> {
    "{\"containers\":{"@ + json_entries_from(s, 0) + "}}"@
}

// ---------------------------------------------------------------------------
// The encoder
// ---------------------------------------------------------------------------

/// Append a literal's characters to the buffer.
fn push_lit(buf: &mut Vec<char>, lit: &str)
    ensures
        final(buf)@ == old(buf)@ + lit@,
{
    let cs = chars_of(lit);
    buf.extend_from_slice(cs.as_slice());
}

/// Append the escaped body of `s` to the buffer.
fn push_esc(buf: &mut Vec<char>, s: &str)
    ensures
        final(buf)@ == old(buf)@ + esc(s@),
{
    let cs = chars_of(s);
    let n = cs.len();
    let mut i: usize = 0;
    while i < n
        invariant
            n == cs@.len(),
            cs@ == s@,
            i <= n,
            buf@ == old(buf)@ + esc(s@.take(i as int)),
        decreases n - i,
    {
        let c = cs[i];
        if c == '"' {
            buf.push('\\');
            buf.push('"');
        } else if c == '\\' {
            buf.push('\\');
            buf.push('\\');
        } else {
            buf.push(c);
        }
        proof {
            lemma_esc_add(s@.take(i as int), seq![s@[i as int]]);
            assert(s@.take(i + 1) =~= s@.take(i as int) + seq![s@[i as int]]);
            let one = seq![s@[i as int]];
            assert(one.drop_first() =~= Seq::<char>::empty());
            assert(esc(Seq::<char>::empty()) == Seq::<char>::empty());
            assert(esc(one) =~= esc_char(s@[i as int]));
            assert(buf@ =~= old(buf)@ + esc(s@.take(i + 1)));
        }
        i += 1;
    }
    proof {
        assert(s@.take(n as int) =~= s@);
    }
}

/// Escaping distributes over concatenation.
proof fn lemma_esc_add(a: Seq<char>, b: Seq<char>)
    ensures
        esc(a + b) == esc(a) + esc(b),
    decreases a.len(),
{
    if a.len() == 0 {
        assert(a + b =~= b);
        assert(esc(a) + esc(b) =~= esc(b));
    } else {
        lemma_esc_add(a.drop_first(), b);
        assert((a + b).drop_first() =~= a.drop_first() + b);
        assert((a + b)[0] == a[0]);
        assert(esc(a + b) =~= esc(a) + esc(b));
    }
}

/// Append `s` as a JSON string.
fn push_json_str(buf: &mut Vec<char>, s: &str)
    ensures
        final(buf)@ == old(buf)@ + json_str(s@),
{
    buf.push('"');
    push_esc(buf, s);
    buf.push('"');
    proof {
        assert(buf@ =~= old(buf)@ + json_str(s@));
    }
}

/// Append an optional string.
fn push_opt_str(buf: &mut Vec<char>, o: &Option<String>)
    ensures
        final(buf)@ == old(buf)@ + json_opt_str(opt_str_view(*o)),
{
    match o {
        None => push_lit(buf, "null"),
        Some(s) => push_json_str(buf, s.as_str()),
    }
}

/// Append an optional data directory.
fn push_opt_dir(buf: &mut Vec<char>, o: &Option<DataDirConfig>)
    ensures
        final(buf)@ == old(buf)@ + json_opt_dir(opt_dir_view(*o)),
{
    match o {
        None => push_lit(buf, "null"),
        Some(d) => {
            push_lit(buf, "{\"relative_path\":");
            push_opt_str(buf, &d.relative_path);
            push_lit(buf, ",\"absolute_path\":");
            push_json_str(buf, d.absolute_path.as_str());
            push_lit(buf, "}");
            proof {
                assert(buf@ =~= old(buf)@ + json_opt_dir(opt_dir_view(*o)));
            }
        },
    }
}

/// Append one map entry for the record.
fn push_entry(buf: &mut Vec<char>, c: &ContainerInfo)
    ensures
        final(buf)@ == old(buf)@ + json_entry(c@),
{
    push_json_str(buf, c.id.as_str());
    push_lit(buf, ":");
    push_lit(buf, "{\"id\":");
    push_json_str(buf, c.id.as_str());
    push_lit(buf, ",\"name\":");
    push_json_str(buf, c.name.as_str());
    push_lit(buf, ",\"port\":");
    let digits = u64_to_digits(c.port as u64);
    buf.extend_from_slice(digits.as_slice());
    push_lit(buf, ",\"data_dir\":");
    push_opt_dir(buf, &c.data_dir);
    push_lit(buf, ",\"image_tag\":");
    push_json_str(buf, c.image_tag.as_str());
    push_lit(buf, ",\"last_start\":");
    push_opt_str(buf, &c.last_start);
    push_lit(buf, "}");
    proof {
        assert(buf@ =~= old(buf)@ + json_entry(c@));
    }
}

/// Append every entry from index `i` on, separated by commas.
fn push_entries(buf: &mut Vec<char>, v: &Vec<ContainerInfo>, i: usize)
    requires
        i <= v@.len(),
    ensures
        final(buf)@ == old(buf)@ + json_entries_from(views_of(v@), i as int),
    decreases v@.len() - i,
{
    if i < v.len() {
        assert(views_of(v@)[i as int] == v@[i as int]@);
        push_entry(buf, &v[i]);
        if i + 1 < v.len() {
            push_lit(buf, ",");
            push_entries(buf, v, i + 1);
        }
        proof {
            assert(buf@ =~= old(buf)@ + json_entries_from(views_of(v@), i as int));
        }
    }
}

/// The registry as its canonical JSON text.
pub fn to_json(st: &State) -> (r: String)
    ensures
        r@ == json_state(st@),
{
    let mut buf: Vec<char> = Vec::new();
    push_lit(&mut buf, "{\"containers\":{");
    push_entries(&mut buf, st.containers(), 0);
    push_lit(&mut buf, "}}");
    proof {
        assert(buf@ =~= json_state(st@));
    }
    string_of(buf)
}

// ---------------------------------------------------------------------------
// The parser, at the specification level
// ---------------------------------------------------------------------------

/// `lit` stands in `t` at position `i`.
pub open spec fn lit_at(t: Seq<char>, i: int, lit: Seq<char>) -> bool {
    0 <= i && i + lit.len() <= t.len() && t.subrange(i, i + lit.len()) == lit
}

/// Consume the exact literal, yielding the position after it.
pub open spec fn p_lit(t: Seq<char>, i: int, lit: Seq<char>) -> Option<int> {
    if lit_at(t, i, lit) {
        Some(i + lit.len())
    } else {
        None
    }
}

/// Consume a string body up to its closing quote, undoing escapes.
pub open spec fn p_str_body(t: Seq<char>, i: int) -> Option<(Seq<char>, int)>
    decreases t.len() - i,
{
    if i < 0 || i >= t.len() {
        None
    } else if t[i] == '"' {
        Some((Seq::empty(), i + 1))
    } else if t[i] == '\\' {
        if i + 1 < t.len() && (t[i + 1] == '"' || t[i + 1] == '\\') {
            match p_str_body(t, i + 2) {
                None => None,
                Some((s, j)) => Some((seq![t[i + 1]] + s, j)),
            }
        } else {
            None
        }
    } else {
        match p_str_body(t, i + 1) {
            None => None,
            Some((s, j)) => Some((seq![t[i]] + s, j)),
        }
    }
}

/// Consume a quoted JSON string.
pub open spec fn p_str(t: Seq<char>, i: int) -> Option<(Seq<char>, int)> {
    if 0 <= i < t.len() && t[i] == '"' {
        p_str_body(t, i + 1)
    } else {
        None
    }
}

/// Consume `null` or a JSON string.
pub open spec fn p_opt_str(t: Seq<char>, i: int) -> Option<(Option<Seq<char>>, int)> {
    if lit_at(t, i, "null"@) {
        Some((None, i + 4))
    } else {
        match p_str(t, i) {
            None => None,
            Some((s, j)) => Some((Some(s), j)),
        }
    }
}

/// The position just after the run of digits starting at `i`.
pub open spec fn digit_run_end(t: Seq<char>, i: int) -> int
    decreases t.len() - i,
{
    if 0 <= i < t.len() && is_digit(t[i]) {
        digit_run_end(t, i + 1)
    } else {
        i
    }
}

/// Consume a decimal port number.
pub open spec fn p_port(t: Seq<char>, i: int) -> Option<(u16, int)> {
    let j = digit_run_end(t, i);
    if 0 <= i && j > i && val_of_digits(t.subrange(i, j)) <= 65535 {
        Some((val_of_digits(t.subrange(i, j)) as u16, j))
    } else {
        None
    }
}

/// Consume a data directory object.
pub open spec fn p_dir(t: Seq<char>, i: int) -> Option<(DataDirView, int)> {
    match p_lit(t, i, "{\"relative_path\":"@) {
        None => None,
        Some(i1) => match p_opt_str(t, i1) {
            None => None,
            Some((rel, i2)) => match p_lit(t, i2, ",\"absolute_path\":"@) {
                None => None,
                Some(i3) => match p_str(t, i3) {
                    None => None,
                    Some((abs, i4)) => match p_lit(t, i4, "}"@) {
                        None => None,
                        Some(i5) => Some(
                            (DataDirView { relative_path: rel, absolute_path: abs }, i5),
                        ),
                    },
                },
            },
        },
    }
}

/// Consume `null` or a data directory object.
pub open spec fn p_opt_dir(t: Seq<char>, i: int) -> Option<(Option<DataDirView>, int)> {
    if lit_at(t, i, "null"@) {
        Some((None, i + 4))
    } else {
        match p_dir(t, i) {
            None => None,
            Some((d, j)) => Some((Some(d), j)),
        }
    }
}

/// Consume one container record object.
pub open spec fn p_rec(t: Seq<char>, i: int) -> Option<(ContainerView, int)> {
    match p_lit(t, i, "{\"id\":"@) {
        None => None,
        Some(i1) => match p_str(t, i1) {
            None => None,
            Some((id, i2)) => match p_lit(t, i2, ",\"name\":"@) {
                None => None,
                Some(i3) => match p_str(t, i3) {
                    None => None,
                    Some((name, i4)) => match p_lit(t, i4, ",\"port\":"@) {
                        None => None,
                        Some(i5) => match p_port(t, i5) {
                            None => None,
                            Some((port, i6)) => match p_lit(t, i6, ",\"data_dir\":"@) {
                                None => None,
                                Some(i7) => match p_opt_dir(t, i7) {
                                    None => None,
                                    Some((dir, i8)) => match p_lit(t, i8, ",\"image_tag\":"@) {
                                        None => None,
                                        Some(i9) => match p_str(t, i9) {
                                            None => None,
                                            Some((tag, i10)) => match p_lit(
                                                t,
                                                i10,
                                                ",\"last_start\":"@,
                                            ) {
                                                None => None,
                                                Some(i11) => match p_opt_str(t, i11) {
                                                    None => None,
                                                    Some((ls, i12)) => match p_lit(t, i12, "}"@) {
                                                        None => None,
                                                        Some(i13) => Some(
                                                            (
                                                                ContainerView {
                                                                    id: id,
                                                                    name: name,
                                                                    port: port,
                                                                    data_dir: dir,
                                                                    image_tag: tag,
                                                                    last_start: ls,
                                                                },
                                                                i13,
                                                            ),
                                                        ),
                                                    },
                                                },
                                            },
                                        },
                                    },
                                },
                            },
                        },
                    },
                },
            },
        },
    }
}

/// Consume one map entry, whose key must repeat the record's id.
pub open spec fn p_entry(t: Seq<char>, i: int) -> Option<(ContainerView, int)> {
    match p_str(t, i) {
        None => None,
        Some((key, i1)) => match p_lit(t, i1, ":"@) {
            None => None,
            Some(i2) => match p_rec(t, i2) {
                None => None,
                Some((c, j)) => if key == c.id {
                    Some((c, j))
                } else {
                    None
                },
            },
        },
    }
}

/// Consume one or more comma-separated entries.
pub open spec fn p_entries(t: Seq<char>, i: int) -> Option<(Seq<ContainerView>, int)>
    decreases t.len() - i,
{
    match p_entry(t, i) {
        None => None,
        Some((c, j)) => if i <= j && j < t.len() && t[j] == ',' {
            match p_entries(t, j + 1) {
                None => None,
                Some((s, k)) => Some((seq![c] + s, k)),
            }
        } else {
            Some((seq![c], j))
        },
    }
}

/// The records read from the whole text, which must be the canonical layout
/// and nothing more.
pub open spec fn p_state(t: Seq<char>) -> Option<Seq<ContainerView>> {
    match p_lit(t, 0, "{\"containers\":{"@) {
        None => None,
        Some(i) => if lit_at(t, i, "}}"@) && i + 2 == t.len() {
            Some(Seq::empty())
        } else {
            match p_entries(t, i) {
                None => None,
                Some((s, j)) => if lit_at(t, j, "}}"@) && j + 2 == t.len() {
                    Some(s)
                } else {
                    None
                },
            }
        },
    }
}

// ---------------------------------------------------------------------------
// The parser, executable
// ---------------------------------------------------------------------------

/// Executable digit test.
fn is_digit_exec(c: char) -> (r: bool)
    ensures
        r == is_digit(c),
{
    let u = c as u32;
    48 <= u && u <= 57
}

/// Consume the exact literal.
fn p_lit_exec(t: &Vec<char>, i: usize, lit: &str) -> (r: Option<usize>)
    ensures
        match r {
            Some(j) => p_lit(t@, i as int, lit@) == Some(j as int) && i <= j <= t@.len(),
            None => p_lit(t@, i as int, lit@) is None,
        },
{
    let l = chars_of(lit);
    let n = l.len();
    if i > t.len() || n > t.len() - i {
        assert(!lit_at(t@, i as int, lit@));
        return None;
    }
    let mut k: usize = 0;
    while k < n
        invariant
            n == l@.len(),
            l@ == lit@,
            i + n <= t@.len(),
            k <= n,
            forall|m: int| 0 <= m < k ==> t@[i + m] == lit@[m],
        decreases n - k,
    {
        if t[i + k] != l[k] {
            proof {
                if lit_at(t@, i as int, lit@) {
                    assert(t@.subrange(i as int, i + lit@.len())[k as int] == t@[i + k]);
                }
            }
            return None;
        }
        k += 1;
    }
    proof {
        assert(t@.subrange(i as int, i + lit@.len()) =~= lit@);
    }
    Some(i + n)
}

/// Consume a string body up to its closing quote.
fn p_str_body_exec(t: &Vec<char>, i: usize) -> (r: Option<(Vec<char>, usize)>)
    ensures
        match r {
            Some(v) => p_str_body(t@, i as int) == Some((v.0@, v.1 as int)) && i <= v.1
                <= t@.len(),
            None => p_str_body(t@, i as int) is None,
        },
    decreases t@.len() - i,
{
    if i >= t.len() {
        return None;
    }
    let c = t[i];
    if c == '"' {
        let v: Vec<char> = Vec::new();
        proof {
            assert(v@ =~= Seq::<char>::empty());
        }
        Some((v, i + 1))
    } else if c == '\\' {
        if i + 1 < t.len() && (t[i + 1] == '"' || t[i + 1] == '\\') {
            match p_str_body_exec(t, i + 2) {
                None => None,
                Some((mut s, j)) => {
                    let ghost s0 = s@;
                    s.insert(0, t[i + 1]);
                    proof {
                        assert(s@ =~= seq![t@[i + 1]] + s0);
                    }
                    Some((s, j))
                },
            }
        } else {
            None
        }
    } else {
        match p_str_body_exec(t, i + 1) {
            None => None,
            Some((mut s, j)) => {
                let ghost s0 = s@;
                s.insert(0, c);
                proof {
                    assert(s@ =~= seq![t@[i as int]] + s0);
                }
                Some((s, j))
            },
        }
    }
}

/// Consume a quoted JSON string.
fn p_str_exec(t: &Vec<char>, i: usize) -> (r: Option<(Vec<char>, usize)>)
    ensures
        match r {
            Some(v) => p_str(t@, i as int) == Some((v.0@, v.1 as int)) && i <= v.1 <= t@.len(),
            None => p_str(t@, i as int) is None,
        },
{
    if i < t.len() && t[i] == '"' {
        p_str_body_exec(t, i + 1)
    } else {
        None
    }
}

/// Consume `null` or a JSON string.
fn p_opt_str_exec(t: &Vec<char>, i: usize) -> (r: Option<(Option<String>, usize)>)
    ensures
        match r {
            Some(v) => p_opt_str(t@, i as int) == Some((opt_str_view(v.0), v.1 as int)) && i
                <= v.1 <= t@.len(),
            None => p_opt_str(t@, i as int) is None,
        },
{
    proof {
        reveal_strlit("null");
    }
    match p_lit_exec(t, i, "null") {
        Some(j) => Some((None, j)),
        None => match p_str_exec(t, i) {
            None => None,
            Some((s, j)) => Some((Some(string_of(s)), j)),
        },
    }
}

/// Consume a decimal port number.
fn p_port_exec(t: &Vec<char>, i: usize) -> (r: Option<(u16, usize)>)
    ensures
        match r {
            Some(v) => p_port(t@, i as int) == Some((v.0, v.1 as int)) && i <= v.1 <= t@.len(),
            None => p_port(t@, i as int) is None,
        },
{
    let n = t.len();
    let mut j: usize = i;
    if i >= n {
        return None;
    }
    while j < n && is_digit_exec(t[j])
        invariant
            n == t@.len(),
            i <= j <= n,
            digit_run_end(t@, i as int) == digit_run_end(t@, j as int),
            forall|m: int| i <= m < j ==> is_digit(t@[m]),
        decreases n - j,
    {
        j += 1;
    }
    assert(digit_run_end(t@, i as int) == j as int);
    if j == i {
        return None;
    }
    let ghost run = t@.subrange(i as int, j as int);
    let mut val: u32 = 0;
    let mut k: usize = i;
    while k < j
        invariant
            n == t@.len(),
            i <= k <= j <= n,
            run == t@.subrange(i as int, j as int),
            val == val_of_digits(run.take(k - i)),
            val <= 65535,
        decreases j - k,
    {
        let d = crate::strutil::char_to_digit(t[k]);
        proof {
            assert(run.take(k - i + 1).drop_last() =~= run.take(k - i));
            assert(run.take(k - i + 1).last() == run[k - i] == t@[k as int]);
        }
        let next = val * 10 + (d as u32);
        if next > 65535 {
            proof {
                lemma_val_monotone(run, k - i + 1, run.len() as int);
                assert(run.take(run.len() as int) =~= run);
                assert(val_of_digits(run) > 65535);
            }
            return None;
        }
        val = next;
        k += 1;
    }
    proof {
        assert(run.take((j - i) as int) =~= run);
    }
    Some((val as u16, j))
}

/// Consume a data directory object.
fn p_dir_exec(t: &Vec<char>, i: usize) -> (r: Option<(DataDirConfig, usize)>)
    ensures
        match r {
            Some(v) => p_dir(t@, i as int) == Some((v.0@, v.1 as int)) && i <= v.1 <= t@.len(),
            None => p_dir(t@, i as int) is None,
        },
{
    let i1 = match p_lit_exec(t, i, "{\"relative_path\":") {
        None => { return None; },
        Some(x) => x,
    };
    let (rel, i2) = match p_opt_str_exec(t, i1) {
        None => { return None; },
        Some(x) => x,
    };
    let i3 = match p_lit_exec(t, i2, ",\"absolute_path\":") {
        None => { return None; },
        Some(x) => x,
    };
    let (abs, i4) = match p_str_exec(t, i3) {
        None => { return None; },
        Some(x) => x,
    };
    let i5 = match p_lit_exec(t, i4, "}") {
        None => { return None; },
        Some(x) => x,
    };
    Some((DataDirConfig { relative_path: rel, absolute_path: string_of(abs) }, i5))
}

/// Consume `null` or a data directory object.
fn p_opt_dir_exec(t: &Vec<char>, i: usize) -> (r: Option<(Option<DataDirConfig>, usize)>)
    ensures
        match r {
            Some(v) => p_opt_dir(t@, i as int) == Some((opt_dir_view(v.0), v.1 as int)) && i
                <= v.1 <= t@.len(),
            None => p_opt_dir(t@, i as int) is None,
        },
{
    proof {
        reveal_strlit("null");
    }
    match p_lit_exec(t, i, "null") {
        Some(j) => Some((None, j)),
        None => match p_dir_exec(t, i) {
            None => None,
            Some((d, j)) => Some((Some(d), j)),
        },
    }
}

/// Consume one container record object.
fn p_rec_exec(t: &Vec<char>, i: usize) -> (r: Option<(ContainerInfo, usize)>)
    ensures
        match r {
            Some(v) => p_rec(t@, i as int) == Some((v.0@, v.1 as int)) && i <= v.1 <= t@.len(),
            None => p_rec(t@, i as int) is None,
        },
{
    let i1 = match p_lit_exec(t, i, "{\"id\":") {
        None => { return None; },
        Some(x) => x,
    };
    let (id, i2) = match p_str_exec(t, i1) {
        None => { return None; },
        Some(x) => x,
    };
    let i3 = match p_lit_exec(t, i2, ",\"name\":") {
        None => { return None; },
        Some(x) => x,
    };
    let (name, i4) = match p_str_exec(t, i3) {
        None => { return None; },
        Some(x) => x,
    };
    let i5 = match p_lit_exec(t, i4, ",\"port\":") {
        None => { return None; },
        Some(x) => x,
    };
    let (port, i6) = match p_port_exec(t, i5) {
        None => { return None; },
        Some(x) => x,
    };
    let i7 = match p_lit_exec(t, i6, ",\"data_dir\":") {
        None => { return None; },
        Some(x) => x,
    };
    let (dir, i8) = match p_opt_dir_exec(t, i7) {
        None => { return None; },
        Some(x) => x,
    };
    let i9 = match p_lit_exec(t, i8, ",\"image_tag\":") {
        None => { return None; },
        Some(x) => x,
    };
    let (tag, i10) = match p_str_exec(t, i9) {
        None => { return None; },
        Some(x) => x,
    };
    let i11 = match p_lit_exec(t, i10, ",\"last_start\":") {
        None => { return None; },
        Some(x) => x,
    };
    let (ls, i12) = match p_opt_str_exec(t, i11) {
        None => { return None; },
        Some(x) => x,
    };
    let i13 = match p_lit_exec(t, i12, "}") {
        None => { return None; },
        Some(x) => x,
    };
    Some(
        (
            ContainerInfo {
                id: string_of(id),
                name: string_of(name),
                port: port,
                data_dir: dir,
                image_tag: string_of(tag),
                last_start: ls,
            },
            i13,
        ),
    )
}

/// Consume one map entry, whose key must repeat the record's id.
fn p_entry_exec(t: &Vec<char>, i: usize) -> (r: Option<(ContainerInfo, usize)>)
    ensures
        match r {
            Some(v) => p_entry(t@, i as int) == Some((v.0@, v.1 as int)) && i <= v.1
                <= t@.len(),
            None => p_entry(t@, i as int) is None,
        },
{
    let (key, i1) = match p_str_exec(t, i) {
        None => { return None; },
        Some(x) => x,
    };
    let i2 = match p_lit_exec(t, i1, ":") {
        None => { return None; },
        Some(x) => x,
    };
    let (c, j) = match p_rec_exec(t, i2) {
        None => { return None; },
        Some(x) => x,
    };
    let idc = chars_of(c.id.as_str());
    if crate::strutil::chars_eq(&key, &idc) {
        Some((c, j))
    } else {
        None
    }
}

/// Consume one or more comma-separated entries.
fn p_entries_exec(t: &Vec<char>, i: usize) -> (r: Option<(Vec<ContainerInfo>, usize)>)
    ensures
        match r {
            Some(v) => p_entries(t@, i as int) == Some((views_of(v.0@), v.1 as int)) && i
                <= v.1 <= t@.len(),
            None => p_entries(t@, i as int) is None,
        },
    decreases t@.len() - i,
{
    let (c, j) = match p_entry_exec(t, i) {
        None => { return None; },
        Some(x) => x,
    };
    if j < t.len() && t[j] == ',' {
        match p_entries_exec(t, j + 1) {
            None => None,
            Some((mut v, k)) => {
                let ghost v0 = views_of(v@);
                v.insert(0, c);
                proof {
                    assert(views_of(v@) =~= seq![c@] + v0);
                }
                Some((v, k))
            },
        }
    } else {
        let mut v: Vec<ContainerInfo> = Vec::new();
        v.push(c);
        proof {
            assert(views_of(v@) =~= seq![c@]);
        }
        Some((v, j))
    }
}

/// The registry read back from its canonical JSON text. The result is the
/// parsed records exactly when the text is the canonical layout and the
/// records respect the registry's uniqueness invariant.
pub fn from_json(text: &str) -> (r: Option<State>)
    ensures
        match r {
            Some(st) => p_state(text@) is Some && st@ == p_state(text@)->0 && st.wf(),
            None => p_state(text@) is None || !wf_records(p_state(text@)->0),
        },
{
    proof {
        reveal_strlit("}}");
    }
    let t = chars_of(text);
    let i = match p_lit_exec(&t, 0, "{\"containers\":{") {
        None => { return None; },
        Some(x) => x,
    };
    match p_lit_exec(&t, i, "}}") {
        Some(j) if j == t.len() => {
            let st = State::default();
            return Some(st);
        },
        _ => {},
    }
    let (recs, j) = match p_entries_exec(&t, i) {
        None => { return None; },
        Some(x) => x,
    };
    match p_lit_exec(&t, j, "}}") {
        Some(k) if k == t.len() => State::from_records(recs),
        _ => None,
    }
}

/// The registry a configuration file's content yields: no file is an empty
/// registry, which is not an error; a file that is not a registry this tool
/// wrote is reported, with the file's path and the cause.
pub fn load_from(content: Option<&str>, path: &str) -> (r: Result<State, FlockerError>)
    ensures
        match r {
            Ok(st) => st.wf() && match content {
                None => st@ == Seq::<ContainerView>::empty(),
                Some(text) => p_state(text@) is Some && st@ == p_state(text@)->0,
            },
            Err(e) => content matches Some(text) && (p_state(text@) is None || !wf_records(
                p_state(text@)->0,
            )) && match e {
                FlockerError::ConfigFile { message, path: p, source } => message@
                    == "Failed to parse config file"@ && p@ == path@ && source@
                    == "the file is not a registry this tool wrote"@,
                _ => false,
            },
        },
{
    match content {
        None => Ok(State::default()),
        Some(text) => match from_json(text) {
            Some(st) => Ok(st),
            None => Err(
                FlockerError::ConfigFile {
                    message: "Failed to parse config file".to_owned(),
                    path: path.to_owned(),
                    source: "the file is not a registry this tool wrote".to_owned(),
                },
            ),
        },
    }
}

// ---------------------------------------------------------------------------
// Round trip: what the encoder writes, the parser reads back
// ---------------------------------------------------------------------------

/// A concatenation stands at `i` exactly as its parts do in order.
proof fn lemma_lit_at_split(t: Seq<char>, i: int, a: Seq<char>, b: Seq<char>)
    requires
        lit_at(t, i, a + b),
    ensures
        lit_at(t, i, a),
        lit_at(t, i + a.len(), b),
{
    assert(t.subrange(i, i + a.len()) =~= a) by {
        assert forall|k: int| 0 <= k < a.len() implies t.subrange(i, i + a.len())[k] == a[k] by {
            assert(t.subrange(i, i + (a + b).len())[k] == (a + b)[k]);
        }
    }
    assert(t.subrange(i + a.len(), i + a.len() + b.len()) =~= b) by {
        assert forall|k: int| 0 <= k < b.len() implies t.subrange(
            i + a.len(),
            i + a.len() + b.len(),
        )[k] == b[k] by {
            assert(t.subrange(i, i + (a + b).len())[a.len() + k] == (a + b)[a.len() + k]);
        }
    }
}

/// The character under a literal that stands at `i`.
proof fn lemma_lit_at_char(t: Seq<char>, i: int, lit: Seq<char>, k: int)
    requires
        lit_at(t, i, lit),
        0 <= k < lit.len(),
    ensures
        t[i + k] == lit[k],
{
    assert(t.subrange(i, i + lit.len())[k] == t[i + k]);
}

/// A string body written by the encoder parses back to the original text.
proof fn lemma_p_str_body(t: Seq<char>, i: int, s: Seq<char>)
    requires
        lit_at(t, i, esc(s) + seq!['"']),
    ensures
        p_str_body(t, i) == Some((s, i + esc(s).len() + 1)),
    decreases s.len(),
{
    if s.len() == 0 {
        assert(esc(s) + seq!['"'] =~= seq!['"']);
        lemma_lit_at_char(t, i, seq!['"'], 0);
    } else {
        let s1 = s.drop_first();
        let c = s[0];
        assert(esc(s) == esc_char(c) + esc(s1));
        assert(esc(s) + seq!['"'] =~= esc_char(c) + (esc(s1) + seq!['"']));
        lemma_lit_at_split(t, i, esc_char(c), esc(s1) + seq!['"']);
        let i1 = i + esc_char(c).len();
        lemma_p_str_body(t, i1, s1);
        if c == '"' || c == '\\' {
            lemma_lit_at_char(t, i, esc_char(c), 0);
            lemma_lit_at_char(t, i, esc_char(c), 1);
            assert(t[i] == '\\' && t[i + 1] == c);
            assert(seq![t[i + 1]] + s1 =~= s);
        } else {
            lemma_lit_at_char(t, i, esc_char(c), 0);
            assert(t[i] == c);
            assert(seq![t[i]] + s1 =~= s);
        }
    }
}

/// A JSON string written by the encoder parses back to the original text.
proof fn lemma_p_str(t: Seq<char>, i: int, s: Seq<char>)
    requires
        lit_at(t, i, json_str(s)),
    ensures
        p_str(t, i) == Some((s, i + json_str(s).len())),
{
    assert(json_str(s) =~= seq!['"'] + (esc(s) + seq!['"']));
    lemma_lit_at_split(t, i, seq!['"'], esc(s) + seq!['"']);
    lemma_lit_at_char(t, i, seq!['"'], 0);
    lemma_p_str_body(t, i + 1, s);
}

/// An optional string written by the encoder parses back.
proof fn lemma_p_opt_str(t: Seq<char>, i: int, o: Option<Seq<char>>)
    requires
        lit_at(t, i, json_opt_str(o)),
    ensures
        p_opt_str(t, i) == Some((o, i + json_opt_str(o).len())),
{
    reveal_strlit("null");
    match o {
        None => {
        },
        Some(s) => {
            assert(json_str(s)[0] == '"');
            lemma_lit_at_char(t, i, json_str(s), 0);
            if lit_at(t, i, "null"@) {
                lemma_lit_at_char(t, i, "null"@, 0);
            }
            lemma_p_str(t, i, s);
        },
    }
}

/// The end of a maximal digit run.
proof fn lemma_digit_run(t: Seq<char>, i: int, j: int)
    requires
        0 <= i <= j <= t.len(),
        forall|k: int| i <= k < j ==> is_digit(t[k]),
        j == t.len() || !is_digit(t[j]),
    ensures
        digit_run_end(t, i) == j,
    decreases j - i,
{
    if i < j {
        lemma_digit_run(t, i + 1, j);
    }
}

/// A port number written by the encoder parses back, provided the next
/// character is not a digit.
proof fn lemma_p_port(t: Seq<char>, i: int, p: u16)
    requires
        lit_at(t, i, dec_digits(p as nat)),
        i + dec_digits(p as nat).len() < t.len(),
        !is_digit(t[i + dec_digits(p as nat).len()]),
    ensures
        p_port(t, i) == Some((p, i + dec_digits(p as nat).len())),
{
    let d = dec_digits(p as nat);
    crate::strutil::lemma_dec_digits_are_digits(p as nat);
    assert forall|k: int| i <= k < i + d.len() implies is_digit(t[k]) by {
        lemma_lit_at_char(t, i, d, k - i);
    }
    lemma_digit_run(t, i, i + d.len());
    crate::strutil::lemma_dec_digits_value(p as nat);
    assert(t.subrange(i, i + d.len()) == d);
}

/// A data directory object written by the encoder parses back.
proof fn lemma_p_dir(t: Seq<char>, i: int, d: DataDirView)
    requires
        lit_at(t, i, json_dir(d)),
    ensures
        p_dir(t, i) == Some((d, i + json_dir(d).len())),
{
    let l1 = "{\"relative_path\":"@;
    let p1 = json_opt_str(d.relative_path);
    let l2 = ",\"absolute_path\":"@;
    let p2 = json_str(d.absolute_path);
    let l3 = "}"@;
    assert(json_dir(d) =~= l1 + (p1 + (l2 + (p2 + l3))));
    lemma_lit_at_split(t, i, l1, p1 + (l2 + (p2 + l3)));
    let i1 = i + l1.len();
    lemma_lit_at_split(t, i1, p1, l2 + (p2 + l3));
    let i2 = i1 + p1.len();
    lemma_lit_at_split(t, i2, l2, p2 + l3);
    let i3 = i2 + l2.len();
    lemma_lit_at_split(t, i3, p2, l3);
    let i4 = i3 + p2.len();
    lemma_p_opt_str(t, i1, d.relative_path);
    lemma_p_str(t, i3, d.absolute_path);
}

/// An optional data directory written by the encoder parses back.
proof fn lemma_p_opt_dir(t: Seq<char>, i: int, o: Option<DataDirView>)
    requires
        lit_at(t, i, json_opt_dir(o)),
    ensures
        p_opt_dir(t, i) == Some((o, i + json_opt_dir(o).len())),
{
    reveal_strlit("null");
    match o {
        None => {
        },
        Some(d) => {
            reveal_strlit("{\"relative_path\":");
            assert(json_dir(d)[0] == '{') by {
                let l1 = "{\"relative_path\":"@;
                assert(json_dir(d)[0] == l1[0]);
            }
            lemma_lit_at_char(t, i, json_dir(d), 0);
            if lit_at(t, i, "null"@) {
                lemma_lit_at_char(t, i, "null"@, 0);
            }
            lemma_p_dir(t, i, d);
        },
    }
}

/// A record object written by the encoder parses back.
#[verifier::rlimit(60)]
proof fn lemma_p_rec(t: Seq<char>, i: int, c: ContainerView)
    requires
        lit_at(t, i, json_rec(c)),
    ensures
        p_rec(t, i) == Some((c, i + json_rec(c).len())),
{
    let l1 = "{\"id\":"@;
    let p1 = json_str(c.id);
    let l2 = ",\"name\":"@;
    let p2 = json_str(c.name);
    let l3 = ",\"port\":"@;
    let p3 = dec_digits(c.port as nat);
    let l4 = ",\"data_dir\":"@;
    let p4 = json_opt_dir(c.data_dir);
    let l5 = ",\"image_tag\":"@;
    let p5 = json_str(c.image_tag);
    let l6 = ",\"last_start\":"@;
    let p6 = json_opt_str(c.last_start);
    let l7 = "}"@;
    assert(json_rec(c) =~= l1 + (p1 + (l2 + (p2 + (l3 + (p3 + (l4 + (p4 + (l5 + (p5 + (l6 + (p6
        + l7))))))))))));
    lemma_lit_at_split(t, i, l1, p1 + (l2 + (p2 + (l3 + (p3 + (l4 + (p4 + (l5 + (p5 + (l6 + (p6
        + l7)))))))))));
    let i1 = i + l1.len();
    lemma_lit_at_split(t, i1, p1, l2 + (p2 + (l3 + (p3 + (l4 + (p4 + (l5 + (p5 + (l6 + (p6
        + l7))))))))));
    let i2 = i1 + p1.len();
    lemma_lit_at_split(t, i2, l2, p2 + (l3 + (p3 + (l4 + (p4 + (l5 + (p5 + (l6 + (p6 + l7)))))))));
    let i3 = i2 + l2.len();
    lemma_lit_at_split(t, i3, p2, l3 + (p3 + (l4 + (p4 + (l5 + (p5 + (l6 + (p6 + l7))))))));
    let i4 = i3 + p2.len();
    lemma_lit_at_split(t, i4, l3, p3 + (l4 + (p4 + (l5 + (p5 + (l6 + (p6 + l7)))))));
    let i5 = i4 + l3.len();
    lemma_lit_at_split(t, i5, p3, l4 + (p4 + (l5 + (p5 + (l6 + (p6 + l7))))));
    let i6 = i5 + p3.len();
    lemma_lit_at_split(t, i6, l4, p4 + (l5 + (p5 + (l6 + (p6 + l7)))));
    let i7 = i6 + l4.len();
    lemma_lit_at_split(t, i7, p4, l5 + (p5 + (l6 + (p6 + l7))));
    let i8 = i7 + p4.len();
    lemma_lit_at_split(t, i8, l5, p5 + (l6 + (p6 + l7)));
    let i9 = i8 + l5.len();
    lemma_lit_at_split(t, i9, p5, l6 + (p6 + l7));
    let i10 = i9 + p5.len();
    lemma_lit_at_split(t, i10, l6, p6 + l7);
    let i11 = i10 + l6.len();
    lemma_lit_at_split(t, i11, p6, l7);
    let i12 = i11 + p6.len();
    lemma_p_str(t, i1, c.id);
    lemma_p_str(t, i3, c.name);
    reveal_strlit(",\"data_dir\":");
    lemma_lit_at_char(t, i6, l4, 0);
    assert(t[i6] == ',');
    assert(!is_digit(',')) by {
        assert((',' as u32) == 44);
    }
    lemma_p_port(t, i5, c.port);
    lemma_p_opt_dir(t, i7, c.data_dir);
    lemma_p_str(t, i9, c.image_tag);
    lemma_p_opt_str(t, i11, c.last_start);
}

/// A map entry written by the encoder parses back.
proof fn lemma_p_entry(t: Seq<char>, i: int, c: ContainerView)
    requires
        lit_at(t, i, json_entry(c)),
    ensures
        p_entry(t, i) == Some((c, i + json_entry(c).len())),
{
    let p1 = json_str(c.id);
    let l1 = ":"@;
    let p2 = json_rec(c);
    assert(json_entry(c) =~= p1 + (l1 + p2));
    lemma_lit_at_split(t, i, p1, l1 + p2);
    let i1 = i + p1.len();
    lemma_lit_at_split(t, i1, l1, p2);
    let i2 = i1 + l1.len();
    lemma_p_str(t, i, c.id);
    lemma_p_rec(t, i2, c);
}

/// The entries written by the encoder parse back, stopping at the closing
/// brace that follows them.
#[verifier::rlimit(30)]
proof fn lemma_p_entries(t: Seq<char>, i: int, s: Seq<ContainerView>, k: int)
    requires
        0 <= k < s.len(),
        lit_at(t, i, json_entries_from(s, k)),
        i + json_entries_from(s, k).len() < t.len(),
        t[i + json_entries_from(s, k).len()] == '}',
    ensures
        p_entries(t, i) == Some(
            (s.subrange(k, s.len() as int), i + json_entries_from(s, k).len()),
        ),
    decreases s.len() - k,
{
    if k == s.len() - 1 {
        assert(json_entries_from(s, k) == json_entry(s[k]));
        lemma_p_entry(t, i, s[k]);
        let j = i + json_entry(s[k]).len();
        assert(t[j] == '}');
        assert(seq![s[k]] =~= s.subrange(k, s.len() as int));
    } else {
        let e = json_entry(s[k]);
        let rest = json_entries_from(s, k + 1);
        assert(json_entries_from(s, k) =~= e + (","@ + rest));
        lemma_lit_at_split(t, i, e, ","@ + rest);
        let j = i + e.len();
        lemma_lit_at_split(t, j, ","@, rest);
        lemma_p_entry(t, i, s[k]);
        reveal_strlit(",");
        lemma_lit_at_char(t, j, ","@, 0);
        assert(t[j] == ',');
        lemma_p_entries(t, j + 1, s, k + 1);
        assert(seq![s[k]] + s.subrange(k + 1, s.len() as int) =~= s.subrange(k, s.len() as int));
    }
}

/// Saving a registry and loading the result reproduces its records exactly:
/// the canonical text of any record sequence parses back to that sequence.
pub proof fn lemma_save_load_round_trip(s: Seq<ContainerView>)
    ensures
        p_state(json_state(s)) == Some(s),
{
    let hdr = "{\"containers\":{"@;
    let entries = json_entries_from(s, 0);
    let tail = "}}"@;
    let t = json_state(s);
    assert(t =~= hdr + (entries + tail));
    assert(lit_at(t, 0, hdr + (entries + tail))) by {
        assert(t.subrange(0, t.len() as int) =~= t);
    }
    lemma_lit_at_split(t, 0, hdr, entries + tail);
    let i = hdr.len() as int;
    lemma_lit_at_split(t, i, entries, tail);
    let j = i + entries.len();
    reveal_strlit("}}");
    lemma_lit_at_char(t, j, tail, 0);
    lemma_lit_at_char(t, j, tail, 1);
    if s.len() == 0 {
        assert(entries.len() == 0);
        assert(lit_at(t, i, "}}"@));
        assert(s =~= Seq::<ContainerView>::empty());
    } else {
        assert(json_entries_from(s, 0).len() > 0 && json_entries_from(s, 0)[0] == '"') by {
            let e = json_entry(s[0]);
            assert(e[0] == json_str(s[0].id)[0]);
            assert(json_str(s[0].id)[0] == '"');
            if s.len() > 1 {
                assert(json_entries_from(s, 0)[0] == e[0]);
            }
        }
        assert(t[i] == '"') by {
            lemma_lit_at_char(t, i, entries, 0);
        }
        if lit_at(t, i, "}}"@) {
            lemma_lit_at_char(t, i, "}}"@, 0);
        }
        assert(!(lit_at(t, i, "}}"@) && i + 2 == t.len()));
        lemma_p_entries(t, i, s, 0);
        assert(s.subrange(0, s.len() as int) =~= s);
        assert(lit_at(t, j, "}}"@) && j + 2 == t.len());
    }
}

/// Loading is a pure function of the file's text: the same text always
/// yields the same records, so two loads with no write between agree.
pub proof fn lemma_load_deterministic(t1: Seq<char>, t2: Seq<char>)
    requires
        t1 == t2,
    ensures
        p_state(t1) == p_state(t2),
{
}

} // verus!


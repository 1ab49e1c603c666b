//! The registry document: one JSON object holding the list of projects.
//!
//! The registry file holds
//! `{"projects":[{"name":…,"id":…,"path":…},…]}` with `"` , `\` and control
//! characters escaped inside strings.  The document is kept in exactly this
//! canonical form: the writer produces it, and the reader accepts nothing
//! else — so whatever the reader returns is precisely the value whose
//! canonical text the file held, and anything else is reported corrupt.
use vstd::prelude::*;

verus! {

use crate::app_config::AppConfig;
use crate::app_config::Project;
use crate::app_config::ProjectModel;
use crate::error::AppError;
use crate::error::ErrorKind;
use crate::paths::FsPath;
use crate::paths::spec_render;
use crate::paths::wf_components;
use crate::text::chars_to_string;
use crate::text::str_to_chars;

/// The lowercase hex digit of a value below sixteen.
pub open spec fn hex_digit(n: u32) -> char {
    if n == 0 {
        '0'
    } else if n == 1 {
        '1'
    } else if n == 2 {
        '2'
    } else if n == 3 {
        '3'
    } else if n == 4 {
        '4'
    } else if n == 5 {
        '5'
    } else if n == 6 {
        '6'
    } else if n == 7 {
        '7'
    } else if n == 8 {
        '8'
    } else if n == 9 {
        '9'
    } else if n == 10 {
        'a'
    } else if n == 11 {
        'b'
    } else if n == 12 {
        'c'
    } else if n == 13 {
        'd'
    } else if n == 14 {
        'e'
    } else {
        'f'
    }
}

/// How one character appears inside a JSON string.
pub open spec fn escape_char(c: char) -> Seq<char> {
    if c == '"' {
        seq!['\\', '"']
    } else if c == '\\' {
        seq!['\\', '\\']
    } else if (c as u32) < 32 {
        seq!['\\', 'u', '0', '0', hex_digit((c as u32) / 16), hex_digit((c as u32) % 16)]
    } else {
        seq![c]
    }
}

/// How a whole text appears inside a JSON string.
pub open spec fn spec_escape(s: Seq<char>) -> Seq<char>
    decreases s.len(),
{
    if s.len() == 0 {
        Seq::empty()
    } else {
        spec_escape(s.drop_last()) + escape_char(s.last())
    }
}

/// A JSON string literal: the escaped text between quotes.
pub open spec fn spec_quoted(s: Seq<char>) -> Seq<char> {
    seq!['"'] + spec_escape(s) + seq!['"']
}

/// Escaping distributes over concatenation.
pub proof fn lemma_escape_concat(a: Seq<char>, b: Seq<char>)
    ensures
        spec_escape(a + b) == spec_escape(a) + spec_escape(b),
    decreases b.len(),
{
    if b.len() == 0 {
        assert(a + b =~= a);
        assert(spec_escape(a) + spec_escape(b) =~= spec_escape(a));
    } else {
        lemma_escape_concat(a, b.drop_last());
        assert((a + b).drop_last() =~= a + b.drop_last());
        assert((a + b).last() == b.last());
        assert(spec_escape(a) + (spec_escape(b.drop_last()) + escape_char(b.last()))
            =~= (spec_escape(a) + spec_escape(b.drop_last())) + escape_char(b.last()));
    }
}

/// One project as a JSON object.
pub open spec fn spec_project_json(p: ProjectModel) -> Seq<char> {
    "{\"name\":"@ + spec_quoted(p.name) + ",\"id\":"@ + spec_quoted(p.id) + ",\"path\":"@
        + spec_quoted(spec_render(true, p.path)) + "}"@
}

/// The projects as the inside of a JSON array, comma-separated.
pub open spec fn spec_items_json(m: Seq<ProjectModel>) -> Seq<char>
    decreases m.len(),
{
    if m.len() == 0 {
        Seq::empty()
    } else if m.len() == 1 {
        spec_project_json(m.first())
    } else {
        spec_project_json(m.first()) + seq![','] + spec_items_json(m.drop_first())
    }
}

/// Appending one more project appends a comma (when the list was not
/// empty) and the project's object.
pub proof fn lemma_items_json_push(m: Seq<ProjectModel>, p: ProjectModel)
    ensures
        spec_items_json(m.push(p)) == if m.len() == 0 {
            spec_project_json(p)
        } else {
            spec_items_json(m) + seq![','] + spec_project_json(p)
        },
    decreases m.len(),
{
    reveal_with_fuel(spec_items_json, 3);
    if m.len() == 0 {
        assert(m.push(p) =~= seq![p]);
    } else if m.len() == 1 {
        assert(m.push(p).len() == 2);
        assert(m.push(p).first() == m.first());
        assert(m.push(p).drop_first() =~= seq![p]);
    } else {
        lemma_items_json_push(m.drop_first(), p);
        assert(m.push(p).drop_first() =~= m.drop_first().push(p));
        assert(m.push(p).first() == m.first());
        assert(spec_project_json(m.first()) + seq![','] + (spec_items_json(m.drop_first())
            + seq![','] + spec_project_json(p)) =~= (spec_project_json(m.first()) + seq![',']
            + spec_items_json(m.drop_first())) + seq![','] + spec_project_json(p));
    }
}

/// The whole registry document.
pub open spec fn spec_config_json(m: Seq<ProjectModel>) -> Seq<char> {
    "{\"projects\":["@ + spec_items_json(m) + "]}"@
}

/// Appends the characters of a string slice.
fn push_chars(out: &mut Vec<char>, s: &str)
    ensures
        final(out)@ == old(out)@ + s@,
{
    let v = str_to_chars(s);
    let n = v.len();
    let mut i: usize = 0;
    while i < n
        invariant
            i <= n,
            n == v@.len(),
            v@ == s@,
            out@ == old(out)@ + v@.subrange(0, i as int),
        decreases n - i,
    {
        out.push(v[i]);
        proof {
            assert(out@ =~= old(out)@ + v@.subrange(0, i + 1 as int));
        }
        i = i + 1;
    }
    proof {
        assert(old(out)@ + v@.subrange(0, n as int) =~= old(out)@ + s@);
    }
}

/// The lowercase hex digit of a value below sixteen.
fn hex_digit_char(n: u32) -> (c: char)
    requires
        n < 16,
    ensures
        c == hex_digit(n),
{
    if n == 0 {
        '0'
    } else if n == 1 {
        '1'
    } else if n == 2 {
        '2'
    } else if n == 3 {
        '3'
    } else if n == 4 {
        '4'
    } else if n == 5 {
        '5'
    } else if n == 6 {
        '6'
    } else if n == 7 {
        '7'
    } else if n == 8 {
        '8'
    } else if n == 9 {
        '9'
    } else if n == 10 {
        'a'
    } else if n == 11 {
        'b'
    } else if n == 12 {
        'c'
    } else if n == 13 {
        'd'
    } else if n == 14 {
        'e'
    } else {
        'f'
    }
}

/// Appends one character in its escaped form.
fn push_escaped_char(out: &mut Vec<char>, c: char)
    ensures
        final(out)@ == old(out)@ + escape_char(c),
{
    if c == '"' {
        out.push('\\');
        out.push('"');
        proof {
            assert(out@ =~= old(out)@ + escape_char(c));
        }
    } else if c == '\\' {
        out.push('\\');
        out.push('\\');
        proof {
            assert(out@ =~= old(out)@ + escape_char(c));
        }
    } else {
        let code = c as u32;
        if code < 32 {
            out.push('\\');
            out.push('u');
            out.push('0');
            out.push('0');
            out.push(hex_digit_char(code / 16));
            out.push(hex_digit_char(code % 16));
            proof {
                assert(out@ =~= old(out)@ + escape_char(c));
            }
        } else {
            out.push(c);
            proof {
                assert(out@ =~= old(out)@ + escape_char(c));
            }
        }
    }
}

/// Appends a whole JSON string literal, quotes included.
fn push_quoted(out: &mut Vec<char>, s: &str)
    ensures
        final(out)@ == old(out)@ + spec_quoted(s@),
{
    out.push('"');
    let v = str_to_chars(s);
    let n = v.len();
    let mut i: usize = 0;
    while i < n
        invariant
            i <= n,
            n == v@.len(),
            v@ == s@,
            out@ == old(out)@ + seq!['"'] + spec_escape(v@.subrange(0, i as int)),
        decreases n - i,
    {
        push_escaped_char(out, v[i]);
        proof {
            let pre = v@.subrange(0, i as int);
            let cur = v@.subrange(0, i + 1 as int);
            assert(cur.drop_last() =~= pre);
            assert(cur.last() == v@[i as int]);
            assert(out@ =~= old(out)@ + seq!['"'] + spec_escape(cur));
        }
        i = i + 1;
    }
    out.push('"');
    proof {
        assert(v@.subrange(0, n as int) =~= s@);
        assert(out@ =~= old(out)@ + spec_quoted(s@));
    }
}

impl AppConfig {
    /// The canonical registry document for this registry value.
    #[verifier::rlimit(50)]
    pub fn to_string(&self) -> (r: Result<String, AppError>)
        requires
            self.wf(),
        ensures
            r matches Ok(s) && s@ == spec_config_json(self.model()),
    {
        let mut out: Vec<char> = Vec::new();
        push_chars(&mut out, "{\"projects\":[");
        let n = self.projects.len();
        let mut i: usize = 0;
        while i < n
            invariant
                i <= n,
                n == self.model().len(),
                self.wf(),
                out@ == "{\"projects\":["@ + spec_items_json(self.model().subrange(0, i as int)),
            decreases n - i,
        {
            if i > 0 {
                out.push(',');
            }
            let p = &self.projects[i];
            push_chars(&mut out, "{\"name\":");
            push_quoted(&mut out, p.name.as_str());
            push_chars(&mut out, ",\"id\":");
            push_quoted(&mut out, p.id.as_str());
            push_chars(&mut out, ",\"path\":");
            let rendered = p.path.to_string();
            proof {
                assert(self.model()[i as int].path_abs);
                assert(rendered@ == spec_render(true, self.model()[i as int].path));
            }
            push_quoted(&mut out, rendered.as_str());
            push_chars(&mut out, "}");
            proof {
                let pre = self.model().subrange(0, i as int);
                let cur = self.model().subrange(0, i + 1 as int);
                assert(cur =~= pre.push(self.model()[i as int]));
                lemma_items_json_push(pre, self.model()[i as int]);
                assert(out@ =~= "{\"projects\":["@ + spec_items_json(cur));
            }
            i = i + 1;
        }
        push_chars(&mut out, "]}");
        proof {
            assert(self.model().subrange(0, n as int) =~= self.model());
            assert(out@ =~= spec_config_json(self.model()));
        }
        Ok(chars_to_string(&out))
    }
}

/// Whether two character vectors hold the same text.
fn chars_eq(a: &Vec<char>, b: &Vec<char>) -> (r: bool)
    ensures
        r == (a@ == b@),
{
    if a.len() != b.len() {
        proof {
            if a@ == b@ {
                assert(a@.len() == b@.len());
            }
        }
        return false;
    }
    let n = a.len();
    let mut i: usize = 0;
    while i < n
        invariant
            i <= n,
            n == a@.len(),
            n == b@.len(),
            forall|j: int| 0 <= j < i ==> a@[j] == b@[j],
        decreases n - i,
    {
        if a[i] != b[i] {
            return false;
        }
        i = i + 1;
    }
    proof {
        assert(a@ =~= b@);
    }
    true
}

/// The given text sits at position `i` of the input.
pub open spec fn text_at(v: Seq<char>, i: int, t: Seq<char>) -> bool {
    0 <= i && i + t.len() <= v.len() && v.subrange(i, i + t.len()) == t
}

/// Consumes an expected literal piece of the document: succeeds exactly
/// when the literal sits at the position.
fn eat_lit(v: &Vec<char>, i: usize, lit: &str) -> (r: Option<usize>)
    requires
        i <= v@.len(),
    ensures
        r matches Some(j) ==> j == i + lit@.len() && text_at(v@, i as int, lit@),
        r is None ==> !text_at(v@, i as int, lit@),
{
    let l = str_to_chars(lit);
    let n = l.len();
    let m = v.len();
    if n > m - i {
        proof {
            if text_at(v@, i as int, lit@) {
                assert(false);
            }
        }
        return None;
    }
    let mut k: usize = 0;
    while k < n
        invariant
            k <= n,
            n == l@.len(),
            m == v@.len(),
            l@ == lit@,
            i + n <= m,
            forall|q: int| 0 <= q < k ==> v@[i + q] == l@[q],
        decreases n - k,
    {
        if v[i + k] != l[k] {
            proof {
                if text_at(v@, i as int, lit@) {
                    assert(v@.subrange(i as int, i + lit@.len())[k as int] == v@[i + k]);
                    assert(false);
                }
            }
            return None;
        }
        k = k + 1;
    }
    proof {
        assert(v@.subrange(i as int, i + lit@.len()) =~= lit@);
    }
    Some(i + n)
}

/// The canonical string literal of `t` sits at position `i`.
pub open spec fn quoted_at(v: Seq<char>, i: int, t: Seq<char>) -> bool {
    text_at(v, i, spec_quoted(t))
}

/// Where a canonical string literal sits, the input at the position right
/// after the already-decoded prefix continues with the code of the next
/// character — or with the closing quote once the prefix is the whole text.
proof fn lemma_quoted_position(v: Seq<char>, i: int, t: Seq<char>, k: int)
    requires
        quoted_at(v, i, t),
        0 <= k <= t.len(),
    ensures
        v[i] == '"',
        i + 1 + spec_escape(t).len() < v.len(),
        spec_escape(t.subrange(0, k)).len() <= spec_escape(t).len(),
        k < t.len() ==> i + 1 + spec_escape(t.subrange(0, k)).len() + escape_char(t[k]).len() <= i
            + 1 + spec_escape(t).len(),
        k < t.len() ==> forall|q: int|
            0 <= q < escape_char(t[k]).len() ==> v[i + 1 + spec_escape(t.subrange(0, k)).len() + q]
                == escape_char(t[k])[q],
        k == t.len() ==> v[i + 1 + spec_escape(t).len()] == '"',
{
    let pre = t.subrange(0, k);
    let suf = t.subrange(k, t.len() as int);
    assert(t =~= pre + suf);
    lemma_escape_concat(pre, suf);
    let q_all = spec_quoted(t);
    assert forall|q: int| 0 <= q < q_all.len() implies v[i + q] == q_all[q] by {
        assert(v.subrange(i, i + q_all.len())[q] == v[i + q]);
    }
    assert(q_all[0] == '"');
    assert(forall|q: int| 0 <= q < spec_escape(t).len() ==> q_all[1 + q] == spec_escape(t)[q]);
    assert(q_all[1 + spec_escape(t).len() as int] == '"');
    if k < t.len() {
        assert(suf.len() > 0);
        assert(suf[0] == t[k]);
        let rest = suf.subrange(1, suf.len() as int);
        assert(suf =~= seq![t[k]] + rest);
        lemma_escape_concat(seq![t[k]], rest);
        assert(spec_escape(seq![t[k]]) == escape_char(t[k])) by {
            reveal_with_fuel(spec_escape, 2);
            assert(seq![t[k]].drop_last() =~= Seq::<char>::empty());
            assert(seq![t[k]].last() == t[k]);
            assert(spec_escape(Seq::<char>::empty()) + escape_char(t[k]) =~= escape_char(t[k]));
        }
        assert(spec_escape(t) =~= spec_escape(pre) + escape_char(t[k]) + spec_escape(rest));
        assert(forall|q: int|
            0 <= q < escape_char(t[k]).len() ==> spec_escape(t)[spec_escape(pre).len() + q]
                == escape_char(t[k])[q]);
    }
}

/// The decoded prefix grows by the next character.
proof fn lemma_escape_prefix_step(t: Seq<char>, k: int)
    requires
        0 <= k < t.len(),
    ensures
        t.subrange(0, k + 1) == t.subrange(0, k).push(t[k]),
        spec_escape(t.subrange(0, k + 1)) == spec_escape(t.subrange(0, k)) + escape_char(t[k]),
{
    let cur = t.subrange(0, k + 1);
    assert(cur =~= t.subrange(0, k).push(t[k]));
    assert(cur.drop_last() =~= t.subrange(0, k));
    assert(cur.last() == t[k]);
}

/// Reads a JSON string literal, undoing the canonical escapes; anything but
/// the canonical form is rejected.  Where the canonical literal of some
/// text sits at the position, that text is owed.
fn parse_qstring(v: &Vec<char>, i: usize) -> (r: Option<(String, usize)>)
    requires
        i <= v@.len(),
    ensures
        r matches Some(p) ==> i < p.1 <= v@.len(),
        forall|t: Seq<char>|
            #[trigger] quoted_at(v@, i as int, t) ==> (r matches Some(p) && p.0@ == t && p.1 == i
                + spec_quoted(t).len()),
{
    let n = v.len();
    if i >= n || v[i] != '"' {
        proof {
            assert forall|t: Seq<char>| !quoted_at(v@, i as int, t) by {
                if quoted_at(v@, i as int, t) {
                    lemma_quoted_position(v@, i as int, t, 0);
                }
            }
        }
        return None;
    }
    let mut out: Vec<char> = Vec::new();
    let mut j: usize = i + 1;
    proof {
        assert(forall|t: Seq<char>| spec_escape(t.subrange(0, 0)).len() == 0) by {
            assert(forall|t: Seq<char>| t.subrange(0, 0) =~= Seq::<char>::empty());
        }
    }
    loop
        invariant
            i < j <= n,
            n == v@.len(),
            forall|t: Seq<char>|
                #[trigger] quoted_at(v@, i as int, t) ==> out@.len() <= t.len() && out@
                    == t.subrange(0, out@.len() as int) && j == i + 1 + spec_escape(
                    t.subrange(0, out@.len() as int),
                ).len(),
        decreases n - j,
    {
        let ghost k = out@.len() as int;
        if j >= n {
            proof {
                assert forall|t: Seq<char>| !quoted_at(v@, i as int, t) by {
                    if quoted_at(v@, i as int, t) {
                        lemma_quoted_position(v@, i as int, t, k);
                    }
                }
            }
            return None;
        }
        let c = v[j];
        if c == '"' {
            let s = chars_to_string(&out);
            proof {
                assert forall|t: Seq<char>|
                    #[trigger] quoted_at(v@, i as int, t) implies s@ == t && j + 1 == i
                    + spec_quoted(t).len() by {
                    lemma_quoted_position(v@, i as int, t, k);
                    if k < t.len() {
                        assert(v@[j as int] == escape_char(t[k])[0]);
                        assert(escape_char(t[k])[0] != '"');
                        assert(false);
                    }
                    assert(t.subrange(0, k) =~= t);
                    assert(out@ =~= t);
                }
            }
            return Some((s, j + 1));
        }
        if c == '\\' {
            if n - j <= 1 {
                proof {
                    assert forall|t: Seq<char>| !quoted_at(v@, i as int, t) by {
                        if quoted_at(v@, i as int, t) {
                            lemma_quoted_position(v@, i as int, t, k);
                            if k < t.len() {
                                assert(v@[j as int] == escape_char(t[k])[0]);
                            }
                        }
                    }
                }
                return None;
            }
            let e = v[j + 1];
            proof {
                assert forall|t: Seq<char>|
                    #[trigger] quoted_at(v@, i as int, t) implies k < t.len() && (escape_char(
                        t[k],
                    )[0] == '\\' && escape_char(t[k]).len() >= 2 && escape_char(t[k])[1]
                        == v@[j + 1]) by {
                    lemma_quoted_position(v@, i as int, t, k);
                    if k == t.len() {
                        assert(t.subrange(0, k) =~= t);
                        assert(v@[j as int] == '"');
                        assert(false);
                    }
                    assert(v@[j as int] == escape_char(t[k])[0]);
                }
            }
            if e == '"' {
                proof {
                    assert forall|t: Seq<char>|
                        #[trigger] quoted_at(v@, i as int, t) implies t[k] == '"' by {
                        lemma_quoted_position(v@, i as int, t, k);
                        assert(escape_char(t[k])[1] == '"');
                    }
                }
                out.push('"');
                j = j + 2;
            } else if e == '\\' {
                proof {
                    assert forall|t: Seq<char>|
                        #[trigger] quoted_at(v@, i as int, t) implies t[k] == '\\' by {
                        lemma_quoted_position(v@, i as int, t, k);
                        assert(escape_char(t[k])[1] == '\\');
                    }
                }
                out.push('\\');
                j = j + 2;
            } else if e == 'u' {
                proof {
                    assert forall|t: Seq<char>|
                        #[trigger] quoted_at(v@, i as int, t) implies (t[k] as u32) < 32
                        && escape_char(t[k]).len() == 6 && v@[j + 2] == '0' && v@[j + 3] == '0'
                        && v@[j + 4] == hex_digit((t[k] as u32) / 16) && v@[j + 5] == hex_digit(
                        (t[k] as u32) % 16,
                    ) by {
                        lemma_quoted_position(v@, i as int, t, k);
                        assert(escape_char(t[k])[1] == 'u');
                    }
                }
                if n - j <= 5 {
                    proof {
                        assert forall|t: Seq<char>| !quoted_at(v@, i as int, t) by {
                            if quoted_at(v@, i as int, t) {
                                lemma_quoted_position(v@, i as int, t, k);
                            }
                        }
                    }
                    return None;
                }
                if v[j + 2] != '0' || v[j + 3] != '0' {
                    proof {
                        assert(forall|t: Seq<char>| !quoted_at(v@, i as int, t));
                    }
                    return None;
                }
                let hi = match hex_value(v[j + 4]) {
                    Some(h) => h,
                    None => {
                        proof {
                            assert forall|t: Seq<char>| !quoted_at(v@, i as int, t) by {
                                if quoted_at(v@, i as int, t) {
                                    lemma_hex_value_of_digit((t[k] as u32) / 16);
                                }
                            }
                        }
                        return None;
                    },
                };
                let lo = match hex_value(v[j + 5]) {
                    Some(h) => h,
                    None => {
                        proof {
                            assert forall|t: Seq<char>| !quoted_at(v@, i as int, t) by {
                                if quoted_at(v@, i as int, t) {
                                    lemma_hex_value_of_digit((t[k] as u32) % 16);
                                }
                            }
                        }
                        return None;
                    },
                };
                let code: u8 = hi * 16 + lo;
                if code >= 32 {
                    proof {
                        assert forall|t: Seq<char>| !quoted_at(v@, i as int, t) by {
                            if quoted_at(v@, i as int, t) {
                                lemma_hex_value_of_digit((t[k] as u32) / 16);
                                lemma_hex_value_of_digit((t[k] as u32) % 16);
                                assert(hi == (t[k] as u32) / 16 && lo == (t[k] as u32) % 16);
                                assert(code == t[k] as u32);
                            }
                        }
                    }
                    return None;
                }
                let decoded = code as char;
                proof {
                    assert forall|t: Seq<char>|
                        #[trigger] quoted_at(v@, i as int, t) implies decoded == t[k] by {
                        assert((t[k] as u32) < 32);
                        assert(v@[j + 4] == hex_digit((t[k] as u32) / 16));
                        assert(v@[j + 5] == hex_digit((t[k] as u32) % 16));
                        lemma_hex_value_of_digit((t[k] as u32) / 16);
                        lemma_hex_value_of_digit((t[k] as u32) % 16);
                        assert(hi as u32 == (t[k] as u32) / 16 && lo as u32 == (t[k] as u32) % 16);
                        assert(code as u32 == t[k] as u32);
                        assert(decoded as u32 == t[k] as u32);
                        lemma_char_injective(decoded, t[k]);
                    }
                }
                out.push(decoded);
                j = j + 6;
            } else {
                proof {
                    assert forall|t: Seq<char>| !quoted_at(v@, i as int, t) by {
                        if quoted_at(v@, i as int, t) {
                            lemma_quoted_position(v@, i as int, t, k);
                        }
                    }
                }
                return None;
            }
        } else {
            let code = c as u32;
            proof {
                assert forall|t: Seq<char>|
                    #[trigger] quoted_at(v@, i as int, t) implies k < t.len() && t[k] == c
                    && escape_char(t[k]).len() == 1 by {
                    lemma_quoted_position(v@, i as int, t, k);
                    if k == t.len() {
                        assert(t.subrange(0, k) =~= t);
                        assert(v@[j as int] == '"');
                        assert(false);
                    }
                    assert(v@[j as int] == escape_char(t[k])[0]);
                    if t[k] == '"' || t[k] == '\\' || (t[k] as u32) < 32 {
                        assert(escape_char(t[k])[0] == '\\');
                        assert(false);
                    }
                }
            }
            if code < 32 {
                proof {
                    assert(forall|t: Seq<char>| !quoted_at(v@, i as int, t));
                }
                return None;
            }
            out.push(c);
            j = j + 1;
        }
        proof {
            assert forall|t: Seq<char>|
                #[trigger] quoted_at(v@, i as int, t) implies out@.len() <= t.len() && out@
                == t.subrange(0, out@.len() as int) && j == i + 1 + spec_escape(
                t.subrange(0, out@.len() as int),
            ).len() by {
                lemma_escape_prefix_step(t, k);
                assert(out@ =~= t.subrange(0, k + 1));
            }
        }
    }
}

/// The value of a lowercase hex digit, if it is one.
pub open spec fn spec_hex_value(c: char) -> Option<u8> {
    if c == '0' {
        Some(0u8)
    } else if c == '1' {
        Some(1u8)
    } else if c == '2' {
        Some(2u8)
    } else if c == '3' {
        Some(3u8)
    } else if c == '4' {
        Some(4u8)
    } else if c == '5' {
        Some(5u8)
    } else if c == '6' {
        Some(6u8)
    } else if c == '7' {
        Some(7u8)
    } else if c == '8' {
        Some(8u8)
    } else if c == '9' {
        Some(9u8)
    } else if c == 'a' {
        Some(10u8)
    } else if c == 'b' {
        Some(11u8)
    } else if c == 'c' {
        Some(12u8)
    } else if c == 'd' {
        Some(13u8)
    } else if c == 'e' {
        Some(14u8)
    } else if c == 'f' {
        Some(15u8)
    } else {
        None
    }
}

/// Two characters with one code are one character.
proof fn lemma_char_injective(c1: char, c2: char)
    requires
        c1 as u32 == c2 as u32,
    ensures
        c1 == c2,
{
}

/// Reading a written hex digit gives the value back.
pub proof fn lemma_hex_value_of_digit(x: u32)
    requires
        x < 16,
    ensures
        spec_hex_value(hex_digit(x)) == Some(x as u8),
{
}

/// The value of a lowercase hex digit.
fn hex_value(c: char) -> (r: Option<u8>)
    ensures
        r == spec_hex_value(c),
        r matches Some(n) ==> n < 16,
{
    if c == '0' {
        Some(0)
    } else if c == '1' {
        Some(1)
    } else if c == '2' {
        Some(2)
    } else if c == '3' {
        Some(3)
    } else if c == '4' {
        Some(4)
    } else if c == '5' {
        Some(5)
    } else if c == '6' {
        Some(6)
    } else if c == '7' {
        Some(7)
    } else if c == '8' {
        Some(8)
    } else if c == '9' {
        Some(9)
    } else if c == 'a' {
        Some(10)
    } else if c == 'b' {
        Some(11)
    } else if c == 'c' {
        Some(12)
    } else if c == 'd' {
        Some(13)
    } else if c == 'e' {
        Some(14)
    } else if c == 'f' {
        Some(15)
    } else {
        None
    }
}

/// A text at a position splits into its two concatenated parts.
proof fn lemma_text_at_concat(v: Seq<char>, i: int, a: Seq<char>, b: Seq<char>)
    requires
        text_at(v, i, a + b),
    ensures
        text_at(v, i, a),
        text_at(v, i + a.len(), b),
{
    let ab = a + b;
    assert forall|q: int| 0 <= q < ab.len() implies v[i + q] == ab[q] by {
        assert(v.subrange(i, i + ab.len())[q] == v[i + q]);
    }
    assert(v.subrange(i, i + a.len()) =~= a);
    assert forall|q: int| 0 <= q < b.len() implies v[i + a.len() + q] == b[q] by {
        assert(v[i + (a.len() + q)] == ab[a.len() + q]);
    }
    assert(v.subrange(i + a.len(), i + a.len() + b.len()) =~= b);
}

/// The canonical object of one project sits at position `i`.
pub open spec fn project_at(v: Seq<char>, i: int, p: ProjectModel) -> bool {
    text_at(v, i, spec_project_json(p))
}

/// Where a project's canonical object sits, each of its pieces sits at its
/// own position.
proof fn lemma_project_at_parts(v: Seq<char>, i: int, p: ProjectModel)
    requires
        project_at(v, i, p),
    ensures
        text_at(v, i, "{\"name\":"@),
        quoted_at(v, i + "{\"name\":"@.len(), p.name),
        text_at(v, i + "{\"name\":"@.len() + spec_quoted(p.name).len(), ",\"id\":"@),
        quoted_at(
            v,
            i + "{\"name\":"@.len() + spec_quoted(p.name).len() + ",\"id\":"@.len(),
            p.id,
        ),
        text_at(
            v,
            i + "{\"name\":"@.len() + spec_quoted(p.name).len() + ",\"id\":"@.len() + spec_quoted(
                p.id,
            ).len(),
            ",\"path\":"@,
        ),
        quoted_at(
            v,
            i + "{\"name\":"@.len() + spec_quoted(p.name).len() + ",\"id\":"@.len() + spec_quoted(
                p.id,
            ).len() + ",\"path\":"@.len(),
            spec_render(true, p.path),
        ),
        text_at(
            v,
            i + "{\"name\":"@.len() + spec_quoted(p.name).len() + ",\"id\":"@.len() + spec_quoted(
                p.id,
            ).len() + ",\"path\":"@.len() + spec_quoted(spec_render(true, p.path)).len(),
            "}"@,
        ),
        spec_project_json(p).len() == "{\"name\":"@.len() + spec_quoted(p.name).len()
            + ",\"id\":"@.len() + spec_quoted(p.id).len() + ",\"path\":"@.len() + spec_quoted(
            spec_render(true, p.path),
        ).len() + "}"@.len(),
{
    let a1 = "{\"name\":"@;
    let q1 = spec_quoted(p.name);
    let a2 = ",\"id\":"@;
    let q2 = spec_quoted(p.id);
    let a3 = ",\"path\":"@;
    let q3 = spec_quoted(spec_render(true, p.path));
    let a4 = "}"@;
    assert(spec_project_json(p) =~= a1 + (q1 + (a2 + (q2 + (a3 + (q3 + a4))))));
    lemma_text_at_concat(v, i, a1, q1 + (a2 + (q2 + (a3 + (q3 + a4)))));
    lemma_text_at_concat(v, i + a1.len(), q1, a2 + (q2 + (a3 + (q3 + a4))));
    lemma_text_at_concat(v, i + a1.len() + q1.len(), a2, q2 + (a3 + (q3 + a4)));
    lemma_text_at_concat(v, i + a1.len() + q1.len() + a2.len(), q2, a3 + (q3 + a4));
    lemma_text_at_concat(v, i + a1.len() + q1.len() + a2.len() + q2.len(), a3, q3 + a4);
    lemma_text_at_concat(v, i + a1.len() + q1.len() + a2.len() + q2.len() + a3.len(), q3, a4);
}

/// Reads one project object.  Where some project's canonical object with a
/// well-formed path sits at the position, that project is owed.
fn parse_project(v: &Vec<char>, i: usize) -> (r: Option<(Project, usize)>)
    requires
        i <= v@.len(),
    ensures
        r matches Some(p) ==> i < p.1 <= v@.len(),
        forall|p: ProjectModel|
            #[trigger] project_at(v@, i as int, p) && wf_components(p.path) ==> (r matches Some(
                pair,
            ) && pair.0.name@ == p.name && pair.0.id@ == p.id && pair.0.path.absolute
                && pair.0.path.model() == p.path && pair.1 == i + spec_project_json(p).len()),
{
    let i1 = match eat_lit(v, i, "{\"name\":") {
        Some(j) => j,
        None => {
            proof {
                assert forall|p: ProjectModel| !project_at(v@, i as int, p) by {
                    if project_at(v@, i as int, p) {
                        lemma_project_at_parts(v@, i as int, p);
                    }
                }
            }
            return None;
        },
    };
    let (name, i2) = match parse_qstring(v, i1) {
        Some(p) => p,
        None => {
            proof {
                assert forall|p: ProjectModel| !project_at(v@, i as int, p) by {
                    if project_at(v@, i as int, p) {
                        lemma_project_at_parts(v@, i as int, p);
                        assert(quoted_at(v@, i1 as int, p.name));
                    }
                }
            }
            return None;
        },
    };
    let i3 = match eat_lit(v, i2, ",\"id\":") {
        Some(j) => j,
        None => {
            proof {
                assert forall|p: ProjectModel| !project_at(v@, i as int, p) by {
                    if project_at(v@, i as int, p) {
                        lemma_project_at_parts(v@, i as int, p);
                        assert(quoted_at(v@, i1 as int, p.name));
                    }
                }
            }
            return None;
        },
    };
    let (id, i4) = match parse_qstring(v, i3) {
        Some(p) => p,
        None => {
            proof {
                assert forall|p: ProjectModel| !project_at(v@, i as int, p) by {
                    if project_at(v@, i as int, p) {
                        lemma_project_at_parts(v@, i as int, p);
                        assert(quoted_at(v@, i1 as int, p.name));
                        assert(quoted_at(v@, i3 as int, p.id));
                    }
                }
            }
            return None;
        },
    };
    let i5 = match eat_lit(v, i4, ",\"path\":") {
        Some(j) => j,
        None => {
            proof {
                assert forall|p: ProjectModel| !project_at(v@, i as int, p) by {
                    if project_at(v@, i as int, p) {
                        lemma_project_at_parts(v@, i as int, p);
                        assert(quoted_at(v@, i1 as int, p.name));
                        assert(quoted_at(v@, i3 as int, p.id));
                    }
                }
            }
            return None;
        },
    };
    let (path_text, i6) = match parse_qstring(v, i5) {
        Some(p) => p,
        None => {
            proof {
                assert forall|p: ProjectModel| !project_at(v@, i as int, p) by {
                    if project_at(v@, i as int, p) {
                        lemma_project_at_parts(v@, i as int, p);
                        assert(quoted_at(v@, i1 as int, p.name));
                        assert(quoted_at(v@, i3 as int, p.id));
                        assert(quoted_at(v@, i5 as int, spec_render(true, p.path)));
                    }
                }
            }
            return None;
        },
    };
    let i7 = match eat_lit(v, i6, "}") {
        Some(j) => j,
        None => {
            proof {
                assert forall|p: ProjectModel| !project_at(v@, i as int, p) by {
                    if project_at(v@, i as int, p) {
                        lemma_project_at_parts(v@, i as int, p);
                        assert(quoted_at(v@, i1 as int, p.name));
                        assert(quoted_at(v@, i3 as int, p.id));
                        assert(quoted_at(v@, i5 as int, spec_render(true, p.path)));
                    }
                }
            }
            return None;
        },
    };
    let path = match FsPath::from_string(path_text.as_str()) {
        Some(p) => p,
        None => {
            proof {
                assert forall|p: ProjectModel|
                    !(project_at(v@, i as int, p) && wf_components(p.path)) by {
                    if project_at(v@, i as int, p) && wf_components(p.path) {
                        lemma_project_at_parts(v@, i as int, p);
                        assert(quoted_at(v@, i1 as int, p.name));
                        assert(quoted_at(v@, i3 as int, p.id));
                        assert(quoted_at(v@, i5 as int, spec_render(true, p.path)));
                        assert(path_text@ == spec_render(true, p.path));
                    }
                }
            }
            return None;
        },
    };
    if !path.absolute {
        proof {
            assert forall|p: ProjectModel|
                !(project_at(v@, i as int, p) && wf_components(p.path)) by {
                if project_at(v@, i as int, p) && wf_components(p.path) {
                    lemma_project_at_parts(v@, i as int, p);
                    assert(quoted_at(v@, i1 as int, p.name));
                    assert(quoted_at(v@, i3 as int, p.id));
                    assert(quoted_at(v@, i5 as int, spec_render(true, p.path)));
                    assert(path_text@ == spec_render(true, p.path));
                    crate::paths::lemma_render_injective(
                        path.absolute,
                        path.model(),
                        true,
                        p.path,
                    );
                }
            }
        }
        return None;
    }
    let pair = (Project { name, id, path }, i7);
    proof {
        assert forall|p: ProjectModel|
            #[trigger] project_at(v@, i as int, p) && wf_components(p.path) implies pair.0.name@
            == p.name && pair.0.id@ == p.id && pair.0.path.absolute && pair.0.path.model() == p.path
            && pair.1 == i + spec_project_json(p).len() by {
            lemma_project_at_parts(v@, i as int, p);
            assert(quoted_at(v@, i1 as int, p.name));
            assert(quoted_at(v@, i3 as int, p.id));
            assert(quoted_at(v@, i5 as int, spec_render(true, p.path)));
            assert(path_text@ == spec_render(true, p.path));
            crate::paths::lemma_render_injective(pair.0.path.absolute, pair.0.path.model(), true, p.path);
        }
    }
    Some(pair)
}

/// Whether each parsed project carries exactly the fields of its model.
pub open spec fn projects_match(ps: Seq<Project>, m: Seq<ProjectModel>) -> bool {
    ps.len() == m.len() && forall|k: int| 0 <= k < m.len() ==> (#[trigger] ps[k]).model() == m[k]
}

/// Every associated path in the registry model is absolute and well formed.
pub open spec fn paths_ok(m: Seq<ProjectModel>) -> bool {
    forall|k: int| 0 <= k < m.len() ==> (#[trigger] m[k]).path_abs && wf_components(m[k].path)
}

/// Reads one or more comma-separated project objects, up to — but not
/// including — the closing `]}`.  Where the canonical items of a model list
/// with well-formed paths sit at the position, followed by `]}`, exactly
/// those projects are owed.
fn parse_items(v: &Vec<char>, i: usize) -> (r: Option<(Vec<Project>, usize)>)
    requires
        i <= v@.len(),
    ensures
        r matches Some(pr) ==> i < pr.1 <= v@.len(),
        forall|m: Seq<ProjectModel>|
            m.len() > 0 && paths_ok(m) && #[trigger] text_at(
                v@,
                i as int,
                spec_items_json(m) + "]}"@,
            ) ==> (r matches Some(pr) && projects_match(pr.0@, m) && pr.1 == i
                + spec_items_json(m).len()),
    decreases v@.len() - i,
{
    let (project, j) = match parse_project(v, i) {
        Some(p) => p,
        None => {
            proof {
                assert forall|m: Seq<ProjectModel>|
                    !(m.len() > 0 && paths_ok(m) && text_at(
                        v@,
                        i as int,
                        spec_items_json(m) + "]}"@,
                    )) by {
                    if m.len() > 0 && paths_ok(m) && text_at(
                        v@,
                        i as int,
                        spec_items_json(m) + "]}"@,
                    ) {
                        lemma_items_head(v@, i as int, m);
                    }
                }
            }
            return None;
        },
    };
    if j < v.len() && v[j] == ',' {
        let rest = match parse_items(v, j + 1) {
            Some(p) => p,
            None => {
                proof {
                    assert forall|m: Seq<ProjectModel>|
                        !(m.len() > 0 && paths_ok(m) && text_at(
                            v@,
                            i as int,
                            spec_items_json(m) + "]}"@,
                        )) by {
                        if m.len() > 0 && paths_ok(m) && text_at(
                            v@,
                            i as int,
                            spec_items_json(m) + "]}"@,
                        ) {
                            lemma_items_head(v@, i as int, m);
                            if m.len() == 1 {
                                assert(v@[j as int] == ']');
                                assert(false);
                            }
                        }
                    }
                }
                return None;
            },
        };
        let (mut projects, end) = rest;
        projects.insert(0, project);
        let out = (projects, end);
        proof {
            assert forall|m: Seq<ProjectModel>|
                m.len() > 0 && paths_ok(m) && #[trigger] text_at(
                    v@,
                    i as int,
                    spec_items_json(m) + "]}"@,
                ) implies projects_match(out.0@, m) && out.1 == i
                + spec_items_json(m).len() by {
                lemma_items_head(v@, i as int, m);
                if m.len() == 1 {
                    assert(v@[j as int] == ']');
                    assert(false);
                }
                assert(text_at(v@, j + 1, spec_items_json(m.drop_first()) + "]}"@));
                assert(m.drop_first().len() > 0 && paths_ok(m.drop_first())) by {
                    assert(forall|k: int|
                        0 <= k < m.drop_first().len() ==> #[trigger] m.drop_first()[k] == m[k
                            + 1]);
                }
                assert(projects_match(rest.0@, m.drop_first()));
                assert(out.0@ =~= rest.0@.insert(
                    0,
                    project,
                ));
                assert(forall|k: int|
                    0 <= k < m.len() ==> #[trigger] out.0@[k] == if k == 0 {
                        project
                    } else {
                        rest.0@[k - 1]
                    });
                assert(project.model() == m[0]);
            }
        }
        Some(out)
    } else {
        let out = (vec![project], j);
        proof {
            assert forall|m: Seq<ProjectModel>|
                m.len() > 0 && paths_ok(m) && #[trigger] text_at(
                    v@,
                    i as int,
                    spec_items_json(m) + "]}"@,
                ) implies projects_match(out.0@, m) && out.1 == i
                + spec_items_json(m).len() by {
                lemma_items_head(v@, i as int, m);
                if m.len() > 1 {
                    assert(v@[j as int] == ',');
                    assert(false);
                }
                assert(out.0@ =~= seq![project]);
                assert(project.model() == m[0]);
            }
        }
        Some(out)
    }
}

/// Where the items of a non-empty model list sit, the first project's
/// object sits first, followed by a comma and the remaining items (or by
/// the closing bracket when it was the last).
proof fn lemma_items_head(v: Seq<char>, i: int, m: Seq<ProjectModel>)
    requires
        m.len() > 0,
        text_at(v, i, spec_items_json(m) + "]}"@),
    ensures
        project_at(v, i, m.first()),
        m.len() == 1 ==> v[i + spec_project_json(m.first()).len()] == ']',
        m.len() > 1 ==> v[i + spec_project_json(m.first()).len()] == ',' && text_at(
            v,
            i + spec_project_json(m.first()).len() + 1,
            spec_items_json(m.drop_first()) + "]}"@,
        ),
        spec_items_json(m).len() >= spec_project_json(m.first()).len(),
        m.len() > 1 ==> spec_items_json(m).len() == spec_project_json(m.first()).len() + 1
            + spec_items_json(m.drop_first()).len(),
{
    reveal_strlit("]}");
    if m.len() == 1 {
        assert(spec_items_json(m) == spec_project_json(m.first()));
        lemma_text_at_concat(v, i, spec_project_json(m.first()), "]}"@);
        assert(v.subrange(
            i + spec_project_json(m.first()).len(),
            i + spec_project_json(m.first()).len() + 2,
        )[0] == ']');
    } else {
        let head = spec_project_json(m.first());
        let tail = spec_items_json(m.drop_first());
        assert(spec_items_json(m) == head + seq![','] + tail);
        assert(spec_items_json(m) + "]}"@ =~= head + (seq![','] + (tail + "]}"@)));
        lemma_text_at_concat(v, i, head, seq![','] + (tail + "]}"@));
        lemma_text_at_concat(v, i + head.len(), seq![','], tail + "]}"@);
        assert(v.subrange(i + head.len(), i + head.len() + 1)[0] == ',');
    }
}

/// Reads a whole registry document, or nothing when the text strays from
/// the canonical form.  Where the text is the canonical document of a model
/// list with well-formed paths, exactly those projects are owed.
fn parse_document(v: &Vec<char>) -> (r: Option<AppConfig>)
    ensures
        forall|m: Seq<ProjectModel>|
            paths_ok(m) && v@ == spec_config_json(m) ==> (r matches Some(c) && projects_match(
                c.projects@,
                m,
            )),
{
    let n = v.len();
    proof {
        assert forall|m: Seq<ProjectModel>|
            v@ == spec_config_json(m) implies text_at(v@, 0, "{\"projects\":["@) && text_at(
            v@,
            "{\"projects\":["@.len() as int,
            spec_items_json(m) + "]}"@,
        ) && v@.len() == "{\"projects\":["@.len() + spec_items_json(m).len() + 2 by {
            reveal_strlit("]}");
            assert(spec_config_json(m) =~= "{\"projects\":["@ + (spec_items_json(m) + "]}"@));
            assert(text_at(v@, 0, "{\"projects\":["@ + (spec_items_json(m) + "]}"@))) by {
                assert(v@.subrange(0, v@.len() as int) =~= v@);
            }
            lemma_text_at_concat(v@, 0, "{\"projects\":["@, spec_items_json(m) + "]}"@);
        }
    }
    let i = match eat_lit(v, 0, "{\"projects\":[") {
        Some(j) => j,
        None => {
            return None;
        },
    };
    let projects: Vec<Project> = Vec::new();
    if let Some(j) = eat_lit(v, i, "]}") {
        if j == n {
            let c = AppConfig { projects };
            proof {
                assert forall|m: Seq<ProjectModel>|
                    paths_ok(m) && v@ == spec_config_json(m) implies projects_match(
                    c.projects@,
                    m,
                ) by {
                    reveal_strlit("]}");
                    reveal_strlit("{\"name\":");
                    if m.len() > 0 {
                        lemma_items_head(v@, i as int, m);
                        lemma_project_at_parts(v@, i as int, m.first());
                        assert(v@.subrange(i as int, i + "{\"name\":"@.len() as int)[0]
                            == v@[i as int]);
                        assert(v@[i as int] == '{');
                        assert(v@.subrange(i as int, i + 2)[0] == v@[i as int]);
                        assert(false);
                    }
                    assert(c.projects@ =~= Seq::<Project>::empty());
                }
            }
            return Some(c);
        }
        proof {
            assert forall|m: Seq<ProjectModel>| !(paths_ok(m) && v@ == spec_config_json(m)) by {
                if paths_ok(m) && v@ == spec_config_json(m) {
                    reveal_strlit("]}");
                    if m.len() == 0 {
                        assert(spec_items_json(m).len() == 0);
                        assert(j == n);
                    } else {
                        reveal_strlit("{\"name\":");
                        lemma_items_head(v@, i as int, m);
                        lemma_project_at_parts(v@, i as int, m.first());
                        assert(v@.subrange(i as int, i + "{\"name\":"@.len() as int)[0]
                            == v@[i as int]);
                        assert(v@[i as int] == '{');
                        assert(text_at(v@, i as int, "]}"@));
                        assert(v@.subrange(i as int, i + 2)[0] == v@[i as int]);
                        assert(false);
                    }
                }
            }
        }
        return None;
    }
    let (parsed, end) = match parse_items(v, i) {
        Some(p) => p,
        None => {
            proof {
                assert forall|m: Seq<ProjectModel>|
                    !(paths_ok(m) && v@ == spec_config_json(m)) by {
                    if paths_ok(m) && v@ == spec_config_json(m) {
                        reveal_strlit("]}");
                        if m.len() == 0 {
                            assert(spec_items_json(m) + "]}"@ =~= "]}"@);
                            assert(text_at(v@, i as int, "]}"@));
                        }
                    }
                }
            }
            return None;
        },
    };
    match eat_lit(v, end, "]}") {
        Some(j) => {
            if j == n {
                let c = AppConfig { projects: parsed };
                proof {
                    assert forall|m: Seq<ProjectModel>|
                        paths_ok(m) && v@ == spec_config_json(m) implies projects_match(
                        c.projects@,
                        m,
                    ) by {
                        reveal_strlit("]}");
                        if m.len() == 0 {
                            assert(spec_items_json(m) + "]}"@ =~= "]}"@);
                            assert(text_at(v@, i as int, "]}"@));
                            assert(false);
                        }
                        assert(c.projects@ == parsed@);
                        assert(projects_match(parsed@, m)) by {
            
                        }
                    }
                }
                Some(c)
            } else {
                proof {
                    assert forall|m: Seq<ProjectModel>|
                        !(paths_ok(m) && v@ == spec_config_json(m)) by {
                        if paths_ok(m) && v@ == spec_config_json(m) {
                            reveal_strlit("]}");
                            if m.len() == 0 {
                                assert(spec_items_json(m) + "]}"@ =~= "]}"@);
                                assert(text_at(v@, i as int, "]}"@));
                                assert(false);
                            }
                            assert(end == i + spec_items_json(m).len());
                        }
                    }
                }
                None
            }
        },
        None => {
            proof {
                assert forall|m: Seq<ProjectModel>|
                    !(paths_ok(m) && v@ == spec_config_json(m)) by {
                    if paths_ok(m) && v@ == spec_config_json(m) {
                        reveal_strlit("]}");
                        if m.len() == 0 {
                            assert(spec_items_json(m) + "]}"@ =~= "]}"@);
                            assert(text_at(v@, i as int, "]}"@));
                            assert(false);
                        }
                        assert(end == i + spec_items_json(m).len());
                        assert(text_at(v@, end as int, "]}"@)) by {
                            lemma_text_at_concat(
                                v@,
                                i as int,
                                spec_items_json(m),
                                "]}"@,
                            );
                        }
                    }
                }
            }
            None
        },
    }
}

impl AppConfig {
    /// Reads a registry value back from its document text.  Exactly the
    /// canonical documents of well-formed registries are accepted: whatever
    /// comes back is the value whose canonical text was given, shown by
    /// rendering it again; everything else is reported corrupt.
    pub fn parse(s: &str) -> (r: Result<AppConfig, AppError>)
        ensures
            r matches Ok(c) ==> c.wf() && s@ == spec_config_json(c.model()),
            r matches Err(e) ==> e.kind == ErrorKind::RegistryCorrupt,
            forall|m: Seq<ProjectModel>|
                crate::app_config::wf_registry(m) && s@ == #[trigger] spec_config_json(m) ==> (
                r matches Ok(c) && c.model() == m),
    {
        let v = str_to_chars(s);
        let config = match parse_document(&v) {
            Some(c) => c,
            None => {
                proof {
                    assert forall|m: Seq<ProjectModel>|
                        !(crate::app_config::wf_registry(m) && s@ == spec_config_json(m)) by {
                        if crate::app_config::wf_registry(m) && s@ == spec_config_json(m) {
                            assert(paths_ok(m));
                        }
                    }
                }
                return Err(
                    AppError::new(
                        ErrorKind::RegistryCorrupt,
                        "the registry document is not in the canonical form",
                    ),
                );
            },
        };
        proof {
            assert forall|m: Seq<ProjectModel>|
                crate::app_config::wf_registry(m) && s@ == #[trigger] spec_config_json(m) implies
                config.model() == m by {
                assert(paths_ok(m));
                assert(projects_match(config.projects@, m));
                assert(config.model() =~= m);
            }
        }
        if !config.check_wf() {
            return Err(
                AppError::new(
                    ErrorKind::RegistryCorrupt,
                    "the registry document holds an invalid name or path, or a duplicated name",
                ),
            );
        }
        let rendered = match config.to_string() {
            Ok(t) => t,
            Err(_) => {
                return Err(
                    AppError::new(ErrorKind::RegistryCorrupt, "the registry could not be rendered"),
                );
            },
        };
        let rv = str_to_chars(rendered.as_str());
        if chars_eq(&rv, &v) {
            Ok(config)
        } else {
            Err(
                AppError::new(
                    ErrorKind::RegistryCorrupt,
                    "the registry document is not in the canonical form",
                ),
            )
        }
    }
}

} // verus!

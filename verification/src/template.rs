//! Command-template rendering: a pure substitution pass. A template is plain
//! text with variable references written `{{ name }}`; rendering replaces
//! each reference with the variable's value. A reference to a variable that
//! was not supplied, a `{{` that is never closed, and a reference holding no
//! well-formed name are errors — never a silent blank.

use crate::text::{chars_eq, chars_to_string, str_to_chars};
use vstd::prelude::*;
use vstd::string::StringExecFns;

verus! {

/// A character that may stand in a variable name: a letter, a digit, or an
/// underscore (stated over the character's code point).
pub open spec fn is_name_char(c: char) -> bool {
    let u = c as u32;
    u == 95 || (97 <= u && u <= 122) || (65 <= u && u <= 90) || (48 <= u && u <= 57)
}

/// A well-formed variable name: non-empty and made of name characters only.
pub open spec fn valid_name(s: Seq<char>) -> bool {
    s.len() > 0 && (forall|k: int| 0 <= k < s.len() ==> is_name_char(s[k]))
}

/// The position of the first `}}` marker in `s`, if any.
pub open spec fn find_close(s: Seq<char>) -> Option<int>
    decreases s.len(),
{
    if s.len() < 2 {
        None
    } else if s[0] == '}' && s[1] == '}' {
        Some(0int)
    } else {
        match find_close(s.drop_first()) {
            Some(i) => Some(i + 1),
            None => None,
        }
    }
}

/// The text with its leading spaces removed.
pub open spec fn trim_front(s: Seq<char>) -> Seq<char>
    decreases s.len(),
{
    if s.len() > 0 && s[0] == ' ' {
        trim_front(s.drop_first())
    } else {
        s
    }
}

/// The text with its trailing spaces removed.
pub open spec fn trim_back(s: Seq<char>) -> Seq<char>
    decreases s.len(),
{
    if s.len() > 0 && s[s.len() - 1] == ' ' {
        trim_back(s.drop_last())
    } else {
        s
    }
}

/// The text with leading and trailing spaces removed.
pub open spec fn trim_spaces(s: Seq<char>) -> Seq<char> {
    trim_back(trim_front(s))
}

/// The value bound to `name`, searching the variable pairs front to back.
pub open spec fn lookup(vars: Seq<(Seq<char>, Seq<char>)>, name: Seq<char>) -> Option<Seq<char>>
    decreases vars.len(),
{
    if vars.len() == 0 {
        None
    } else if vars[0].0 == name {
        Some(vars[0].1)
    } else {
        lookup(vars.drop_first(), name)
    }
}

/// What rendering a template means: text is copied through, and each
/// `{{ name }}` reference is replaced by the value bound to `name`. `None`
/// stands for a template error: an unclosed `{{`, a reference holding no
/// well-formed name, or a reference to an unbound variable.
pub open spec fn render_spec(tmpl: Seq<char>, vars: Seq<(Seq<char>, Seq<char>)>) -> Option<
    Seq<char>,
>
    decreases tmpl.len(),
    via render_spec_dec
{
    if tmpl.len() >= 2 && tmpl[0] == '{' && tmpl[1] == '{' {
        let rest = tmpl.skip(2);
        match find_close(rest) {
            None => None,
            Some(i) => {
                let name = trim_spaces(rest.subrange(0, i));
                if valid_name(name) {
                    match lookup(vars, name) {
                        None => None,
                        Some(val) => match render_spec(rest.skip(i + 2), vars) {
                            None => None,
                            Some(r) => Some(val + r),
                        },
                    }
                } else {
                    None
                }
            },
        }
    } else if tmpl.len() == 0 {
        Some(Seq::empty())
    } else {
        match render_spec(tmpl.drop_first(), vars) {
            None => None,
            Some(r) => Some(seq![tmpl[0]] + r),
        }
    }
}

#[via_fn]
proof fn render_spec_dec(tmpl: Seq<char>, vars: Seq<(Seq<char>, Seq<char>)>) {
    if tmpl.len() >= 2 && tmpl[0] == '{' && tmpl[1] == '{' {
        lemma_find_close_bounds(tmpl.skip(2));
    }
}

/// Whether every `{{` reference in the template is closed and holds a
/// well-formed name.
pub open spec fn well_formed(tmpl: Seq<char>) -> bool
    decreases tmpl.len(),
    via well_formed_dec
{
    if tmpl.len() >= 2 && tmpl[0] == '{' && tmpl[1] == '{' {
        let rest = tmpl.skip(2);
        match find_close(rest) {
            None => false,
            Some(i) => valid_name(trim_spaces(rest.subrange(0, i))) && well_formed(
                rest.skip(i + 2),
            ),
        }
    } else if tmpl.len() == 0 {
        true
    } else {
        well_formed(tmpl.drop_first())
    }
}

#[via_fn]
proof fn well_formed_dec(tmpl: Seq<char>) {
    if tmpl.len() >= 2 && tmpl[0] == '{' && tmpl[1] == '{' {
        lemma_find_close_bounds(tmpl.skip(2));
    }
}

/// The names the template references.
pub open spec fn referenced_vars(tmpl: Seq<char>) -> Set<Seq<char>>
    decreases tmpl.len(),
    via referenced_vars_dec
{
    if tmpl.len() >= 2 && tmpl[0] == '{' && tmpl[1] == '{' {
        let rest = tmpl.skip(2);
        match find_close(rest) {
            None => Set::empty(),
            Some(i) => referenced_vars(rest.skip(i + 2)).insert(
                trim_spaces(rest.subrange(0, i)),
            ),
        }
    } else if tmpl.len() == 0 {
        Set::empty()
    } else {
        referenced_vars(tmpl.drop_first())
    }
}

#[via_fn]
proof fn referenced_vars_dec(tmpl: Seq<char>) {
    if tmpl.len() >= 2 && tmpl[0] == '{' && tmpl[1] == '{' {
        lemma_find_close_bounds(tmpl.skip(2));
    }
}

/// Where `find_close` points, a `}}` stands, and none stands earlier.
proof fn lemma_find_close_bounds(s: Seq<char>)
    ensures
        find_close(s) matches Some(i) ==> 0 <= i && i + 2 <= s.len() && s[i] == '}' && s[i + 1]
            == '}' && (forall|k: int| 0 <= k < i ==> !((#[trigger] s[k]) == '}' && s[k + 1] == '}')),
    decreases s.len(),
{
    if s.len() < 2 {
    } else if s[0] == '}' && s[1] == '}' {
    } else {
        lemma_find_close_bounds(s.drop_first());
        match find_close(s) {
            Some(i) => {
                assert(find_close(s.drop_first()) == Some(i - 1));
                assert(forall|k: int|
                    0 <= k < i - 1 ==> !((#[trigger] s.drop_first()[k]) == '}' && s.drop_first()[k + 1] == '}'));
                assert forall|k: int| 0 <= k < i implies !((#[trigger] s[k]) == '}' && s[k + 1] == '}') by {
                    if k > 0 {
                        assert(s[k] == s.drop_first()[k - 1]);
                        assert(s[k + 1] == s.drop_first()[k]);
                    }
                }
            },
            None => {
            },
        }
    }
}

/// A `}}` at `i`, with none earlier, is what `find_close` finds.
proof fn lemma_find_close_at(s: Seq<char>, i: int)
    requires
        0 <= i,
        i + 2 <= s.len(),
        s[i] == '}',
        s[i + 1] == '}',
        forall|k: int| 0 <= k < i ==> !((#[trigger] s[k]) == '}' && s[k + 1] == '}'),
    ensures
        find_close(s) == Some(i),
    decreases s.len(),
{
    if i == 0 {
    } else {
        assert(!(s[0] == '}' && s[1] == '}'));
        assert(s.drop_first()[i - 1] == s[i]);
        assert(s.drop_first()[i] == s[i + 1]);
        assert forall|k: int| 0 <= k < i - 1 implies !((#[trigger] s.drop_first()[k]) == '}' && s.drop_first()[k + 1] == '}') by {
            assert(s.drop_first()[k] == s[k + 1]);
            assert(s.drop_first()[k + 1] == s[k + 2]);
        }
        lemma_find_close_at(s.drop_first(), i - 1);
    }
}

/// With no `}}` anywhere, `find_close` finds nothing.
proof fn lemma_find_close_none(s: Seq<char>)
    requires
        forall|k: int| 0 <= k && k + 2 <= s.len() ==> !((#[trigger] s[k]) == '}' && s[k + 1] == '}'),
    ensures
        find_close(s) is None,
    decreases s.len(),
{
    if s.len() < 2 {
    } else {
        assert(!(s[0] == '}' && s[1] == '}'));
        assert forall|k: int| 0 <= k && k + 2 <= s.drop_first().len() implies !((#[trigger] s.drop_first()[k]) == '}' && s.drop_first()[k + 1] == '}') by {
            assert(s.drop_first()[k] == s[k + 1]);
            assert(s.drop_first()[k + 1] == s[k + 2]);
        }
        lemma_find_close_none(s.drop_first());
    }
}

/// Dropping `i` leading spaces, up to the first non-space, is `trim_front`.
proof fn lemma_trim_front_skip(s: Seq<char>, i: int)
    requires
        0 <= i <= s.len(),
        forall|k: int| 0 <= k < i ==> s[k] == ' ',
        i == s.len() || s[i] != ' ',
    ensures
        trim_front(s) == s.skip(i),
    decreases i,
{
    if i == 0 {
        assert(s.skip(0) =~= s);
    } else {
        assert(s[0] == ' ');
        lemma_trim_front_skip(s.drop_first(), i - 1);
        assert(s.drop_first().skip(i - 1) =~= s.skip(i));
    }
}

/// Keeping `h` characters, back to the last non-space, is `trim_back`.
proof fn lemma_trim_back_take(s: Seq<char>, h: int)
    requires
        0 <= h <= s.len(),
        forall|k: int| h <= k < s.len() ==> s[k] == ' ',
        h == 0 || s[h - 1] != ' ',
    ensures
        trim_back(s) == s.take(h),
    decreases s.len(),
{
    if h == s.len() {
        assert(s.take(h) =~= s);
        if s.len() > 0 {
            assert(s[s.len() - 1] != ' ');
        }
    } else {
        assert(s[s.len() - 1] == ' ');
        assert(s.len() > 0);
        lemma_trim_back_take(s.drop_last(), h);
        assert(s.drop_last().take(h) =~= s.take(h));
    }
}

/// Rendering is a function of the template and the variables alone: one
/// template with one variable set renders to one text. Rendering twice —
/// or rendering the rendered command again from the same inputs — cannot
/// give two different results.
pub proof fn lemma_render_deterministic(
    tmpl: Seq<char>,
    vars: Seq<(Seq<char>, Seq<char>)>,
    r1: Seq<char>,
    r2: Seq<char>,
)
    requires
        render_spec(tmpl, vars) == Some(r1),
        render_spec(tmpl, vars) == Some(r2),
    ensures
        r1 == r2,
{
}

/// Rendering succeeds exactly when the template is well-formed and every
/// variable it references is supplied; in particular, a template that
/// references an unsupplied variable always fails.
pub proof fn lemma_render_success(tmpl: Seq<char>, vars: Seq<(Seq<char>, Seq<char>)>)
    ensures
        render_spec(tmpl, vars) is Some <==> (well_formed(tmpl) && (forall|n: Seq<char>|
            referenced_vars(tmpl).contains(n) ==> lookup(vars, n) is Some)),
    decreases tmpl.len(),
{
    if tmpl.len() >= 2 && tmpl[0] == '{' && tmpl[1] == '{' {
        let rest = tmpl.skip(2);
        lemma_find_close_bounds(rest);
        match find_close(rest) {
            None => {
                assert(!well_formed(tmpl));
                assert(render_spec(tmpl, vars) is None);
            },
            Some(i) => {
                let name = trim_spaces(rest.subrange(0, i));
                let sub = rest.skip(i + 2);
                lemma_render_success(sub, vars);
                assert(referenced_vars(tmpl) == referenced_vars(sub).insert(name));
                if valid_name(name) && lookup(vars, name) is Some && render_spec(
                    sub,
                    vars,
                ) is Some {
                    assert(render_spec(tmpl, vars) is Some);
                    assert forall|n: Seq<char>| referenced_vars(tmpl).contains(n) implies lookup(
                        vars,
                        n,
                    ) is Some by {
                        if n != name {
                            assert(referenced_vars(sub).contains(n));
                        }
                    }
                } else {
                    assert(render_spec(tmpl, vars) is None);
                    if valid_name(name) {
                        if lookup(vars, name) is Some {
                            assert(render_spec(sub, vars) is None);
                            if well_formed(sub) {
                                let n = choose|n: Seq<char>|
                                    referenced_vars(sub).contains(n) && lookup(vars, n) is None;
                                assert(referenced_vars(sub).contains(n));
                                assert(referenced_vars(tmpl).contains(n));
                            }
                        } else {
                            assert(referenced_vars(tmpl).contains(name));
                        }
                    } else {
                        assert(!well_formed(tmpl));
                    }
                }
            },
        }
    } else if tmpl.len() == 0 {
    } else {
        lemma_render_success(tmpl.drop_first(), vars);
        assert(referenced_vars(tmpl) == referenced_vars(tmpl.drop_first()));
        assert(well_formed(tmpl) == well_formed(tmpl.drop_first()));
    }
}

/// The errors of rendering.
#[derive(Debug, Clone, Copy, PartialEq, Eq, Structural)]
pub enum Error {
    /// The template references a variable that the caller did not supply,
    /// or a `{{` is never closed, or a reference holds no well-formed name.
    Render,
}

impl Error {
    /// The line shown to an operator for this error.
    pub fn to_message(&self) -> (m: String)
        ensures
            m@ == "A templating error occurred"@,
    {
        String::from_str("A templating error occurred")
    }
}

/// A command template, held as its text.
pub struct Template {
    tmpl: String,
}

impl View for Template {
    type V = Seq<char>;

    /// A template is its text.
    closed spec fn view(&self) -> Seq<char> {
        self.tmpl@
    }
}

impl Template {
    /// Wraps template text for rendering.
    pub fn new(tmpl: String) -> (r: Result<Template, Error>)
        ensures
            r matches Ok(t) && t@ == tmpl@,
    {
        Ok(Template { tmpl })
    }

    /// Renders the template over the given variable pairs: exactly the
    /// substitution that `render_spec` describes, an error exactly when it
    /// describes none.
    pub fn render(&self, data: &Vec<(String, String)>) -> (r: Result<String, Error>)
        ensures
            r matches Ok(s) ==> render_spec(self@, data.deep_view()) == Some(s@),
            r is Err ==> render_spec(self@, data.deep_view()) is None,
    {
        render_text(self.tmpl.as_str(), data)
    }
}

/// Scans for the first `}}` at or after `start`.
fn scan_close(chars: &Vec<char>, start: usize) -> (r: Option<usize>)
    requires
        start <= chars@.len(),
    ensures
        r matches Some(j) ==> start <= j && j + 2 <= chars@.len() && find_close(
            chars@.skip(start as int),
        ) == Some(j - start),
        r is None ==> find_close(chars@.skip(start as int)) is None,
{
    let n = chars.len();
    let mut j = start;
    while n - j > 1
        invariant
            start <= j <= n,
            n == chars@.len(),
            forall|k: int| start <= k < j ==> !((#[trigger] chars@[k]) == '}' && chars@[k + 1] == '}'),
        decreases n - j,
    {
        if chars[j] == '}' && chars[j + 1] == '}' {
            proof {
                let rel = chars@.skip(start as int);
                assert(rel[j - start] == chars@[j as int]);
                assert(rel[j - start + 1] == chars@[j + 1]);
                assert forall|k: int| 0 <= k < j - start implies !((#[trigger] rel[k]) == '}' && rel[k + 1] == '}') by {
                    assert(rel[k] == chars@[start + k]);
                    assert(rel[k + 1] == chars@[start + k + 1]);
                }
                lemma_find_close_at(rel, j - start);
            }
            return Some(j);
        }
        j = j + 1;
    }
    proof {
        let rel = chars@.skip(start as int);
        assert forall|k: int| 0 <= k && k + 2 <= rel.len() implies !((#[trigger] rel[k]) == '}' && rel[k + 1] == '}') by {
            assert(rel[k] == chars@[start + k]);
            assert(rel[k + 1] == chars@[start + k + 1]);
        }
        lemma_find_close_none(rel);
    }
    None
}

/// Whether the character may stand in a variable name.
fn name_char(c: char) -> (r: bool)
    ensures
        r == is_name_char(c),
{
    let u = c as u32;
    u == 95 || (97 <= u && u <= 122) || (65 <= u && u <= 90) || (48 <= u && u <= 57)
}

/// Looks a name up among the variable pairs, front to back.
fn lookup_value(data: &Vec<(String, String)>, name: &Vec<char>) -> (r: Option<String>)
    ensures
        r matches Some(v) ==> lookup(data.deep_view(), name@) == Some(v@),
        r is None ==> lookup(data.deep_view(), name@) is None,
{
    let ghost dv = data.deep_view();
    let mut i: usize = 0;
    proof {
        assert(dv.skip(0) =~= dv);
    }
    while i < data.len()
        invariant
            i <= data@.len(),
            dv == data.deep_view(),
            dv.len() == data@.len(),
            forall|k: int| 0 <= k < dv.len() ==> dv[k] == (data@[k].0@, data@[k].1@),
            lookup(dv, name@) == lookup(dv.skip(i as int), name@),
        decreases data@.len() - i,
    {
        let key_chars = str_to_chars(data[i].0.as_str());
        if chars_eq(&key_chars, name) {
            proof {
                assert(dv.skip(i as int)[0] == dv[i as int]);
                assert(dv[i as int].0 == name@);
            }
            return Some(data[i].1.clone());
        }
        proof {
            assert(dv.skip(i as int)[0].0 != name@);
            assert(dv.skip(i as int).drop_first() =~= dv.skip(i + 1));
        }
        i = i + 1;
    }
    proof {
        assert(dv.skip(i as int) =~= Seq::<(Seq<char>, Seq<char>)>::empty());
    }
    None
}

/// Renders template text over the given variable pairs.
pub fn render_text(tmpl: &str, data: &Vec<(String, String)>) -> (r: Result<String, Error>)
    ensures
        r matches Ok(s) ==> render_spec(tmpl@, data.deep_view()) == Some(s@),
        r is Err ==> render_spec(tmpl@, data.deep_view()) is None,
{
    let chars = str_to_chars(tmpl);
    let n = chars.len();
    let ghost whole = chars@;
    let ghost dv = data.deep_view();
    let mut out: Vec<char> = Vec::new();
    let mut pos: usize = 0;
    proof {
        assert(whole.skip(0) =~= whole);
    }
    while pos < n
        invariant
            pos <= n,
            n == chars@.len(),
            whole == chars@,
            whole == tmpl@,
            dv == data.deep_view(),
            match render_spec(whole.skip(pos as int), dv) {
                Some(rest) => render_spec(whole, dv) == Some(out@ + rest),
                None => render_spec(whole, dv) is None,
            },
        decreases n - pos,
    {
        let c = chars[pos];
        if c == '{' && pos + 1 < n && chars[pos + 1] == '{' {
            let ghost cur = whole.skip(pos as int);
            proof {
                assert(cur[0] == '{');
                assert(cur[1] == '{');
                assert(cur.skip(2) =~= whole.skip(pos + 2));
            }
            // The reference must be closed.
            let j = match scan_close(&chars, pos + 2) {
                None => {
                    return Err(Error::Render);
                },
                Some(j) => j,
            };
            let ghost rel = j as int - (pos + 2) as int;
            proof {
                lemma_find_close_bounds(whole.skip(pos + 2));
                assert(whole.skip(pos + 2).subrange(0, rel) =~= whole.subrange(
                    pos + 2,
                    j as int,
                ));
                assert(whole.skip(pos + 2).skip(rel + 2) =~= whole.skip(j + 2));
            }
            // Trim the spaces around the name.
            let mut lo = pos + 2;
            while lo < j && chars[lo] == ' '
                invariant
                    pos + 2 <= lo <= j,
                    j + 2 <= n,
                    n == chars@.len(),
                    forall|k: int| pos + 2 <= k < lo ==> chars@[k] == ' ',
                decreases j - lo,
            {
                lo = lo + 1;
            }
            let mut hi = j;
            while hi > lo && chars[hi - 1] == ' '
                invariant
                    lo <= hi <= j,
                    j + 2 <= n,
                    n == chars@.len(),
                    forall|k: int| hi <= k < j ==> chars@[k] == ' ',
                decreases hi,
            {
                hi = hi - 1;
            }
            let ghost content = whole.subrange(pos + 2, j as int);
            proof {
                let fr = content.skip(lo - (pos + 2) as int);
                assert forall|k: int| 0 <= k < lo - (pos + 2) implies content[k] == ' ' by {
                    assert(content[k] == whole[pos + 2 + k]);
                }
                if lo < j {
                    assert(content[lo - (pos + 2) as int] == whole[lo as int]);
                }
                lemma_trim_front_skip(content, lo - (pos + 2) as int);
                assert forall|k: int| hi - lo <= k < fr.len() implies fr[k] == ' ' by {
                    assert(fr[k] == whole[pos + 2 + (lo - (pos + 2)) + k]);
                }
                if hi > lo {
                    assert(fr[hi - lo - 1] == whole[hi - 1]);
                }
                lemma_trim_back_take(fr, hi - lo as int);
                assert(trim_spaces(content) =~= whole.subrange(lo as int, hi as int));
            }
            // Copy the name out.
            let mut name_buf: Vec<char> = Vec::new();
            let mut k = lo;
            while k < hi
                invariant
                    lo <= k <= hi,
                    hi <= n,
                    n == chars@.len(),
                    whole == chars@,
                    name_buf@ == whole.subrange(lo as int, k as int),
                decreases hi - k,
            {
                name_buf.push(chars[k]);
                k = k + 1;
                proof {
                    assert(name_buf@ =~= whole.subrange(lo as int, k as int));
                }
            }
            // The name must be well-formed.
            let mut ok = name_buf.len() > 0;
            let mut m: usize = 0;
            while m < name_buf.len()
                invariant
                    m <= name_buf@.len(),
                    ok == (name_buf@.len() > 0 && (forall|q: int|
                        0 <= q < m ==> is_name_char(name_buf@[q]))),
                decreases name_buf@.len() - m,
            {
                if !name_char(name_buf[m]) {
                    ok = false;
                }
                m = m + 1;
            }
            proof {
                assert(ok == valid_name(name_buf@));
            }
            if !ok {
                proof {
                    assert(render_spec(cur, dv) is None);
                }
                return Err(Error::Render);
            }
            // The name must be bound.
            let val = match lookup_value(data, &name_buf) {
                None => {
                    proof {
                        assert(render_spec(cur, dv) is None);
                    }
                    return Err(Error::Render);
                },
                Some(v) => v,
            };
            let mut val_chars = str_to_chars(val.as_str());
            let ghost out_before = out@;
            out.append(&mut val_chars);
            proof {
                assert(out@ == out_before + val@);
                assert(match render_spec(whole.skip(j + 2), dv) {
                    Some(rest) => render_spec(cur, dv) == Some(val@ + rest) && ((out_before
                        + val@) + rest =~= out_before + (val@ + rest)),
                    None => render_spec(cur, dv) is None,
                });
            }
            pos = j + 2;
        } else {
            let ghost cur = whole.skip(pos as int);
            proof {
                assert(cur[0] == c);
                if cur.len() >= 2 {
                    assert(cur[1] == whole[pos + 1]);
                }
                assert(cur.drop_first() =~= whole.skip(pos + 1));
            }
            let ghost out_before = out@;
            out.push(c);
            pos = pos + 1;
            proof {
                assert(out@ =~= out_before + seq![c]);
                assert(match render_spec(whole.skip(pos as int), dv) {
                    Some(rest) => render_spec(cur, dv) == Some(seq![c] + rest) && ((out_before
                        + seq![c]) + rest =~= out_before + (seq![c] + rest)),
                    None => render_spec(cur, dv) is None,
                });
            }
        }
    }
    proof {
        assert(whole.skip(pos as int) =~= Seq::<char>::empty());
        assert(render_spec(Seq::<char>::empty(), dv) == Some(Seq::<char>::empty()));
        if render_spec(whole, dv) is Some {
            assert(out@ + Seq::<char>::empty() =~= out@);
        }
    }
    Ok(chars_to_string(&out))
}

} // verus!

//! Reading the redirect that ends the browser flow.
//!
//! The browser is sent back to a loopback listener with the authorisation code,
//! or with an error, in the query string of its request. Only the first line of
//! the request is read: its second whitespace-separated word is the path, the
//! text after the first `?` of the path (up to a second `?`) is the query, and
//! the query is a list of `key=value` parameters separated by `&`.
use vstd::prelude::*;
use vstd::string::*;
use crate::text::{
    after, before, chars_eq, chars_of, lemma_run_len_bounds, run_end, run_len, slice_of, string_of,
    take_after, take_before, Stop,
};
use crate::urlcode::{url_decode_spec, url_decode_chars};
use crate::auth::AuthError;

verus! {

/// The first line of a text, without its line ending (`\n` or `\r\n`). A text
/// without `\n` is its own first line.
pub open spec fn first_line(s: Seq<char>) -> Seq<char> {
    let n = run_len(s, Stop::At('\n'));
    if n < s.len() && n > 0 && s[n - 1] == '\r' {
        s.take(n - 1)
    } else {
        s.take(n)
    }
}

/// The second whitespace-separated word of a line, or the empty text when it
/// has fewer than two words.
pub open spec fn second_word(line: Seq<char>) -> Seq<char> {
    let a = line.skip(run_len(line, Stop::Word));
    let b = a.skip(run_len(a, Stop::Space));
    let c = b.skip(run_len(b, Stop::Word));
    c.take(run_len(c, Stop::Space))
}

/// The query string of a path: what stands between its first `?` and its
/// second, or its end. Empty when the path holds no `?`.
pub open spec fn query_of(path: Seq<char>) -> Seq<char> {
    match after(path, '?') {
        Some(rest) => before(rest, '?'),
        None => Seq::<char>::empty(),
    }
}

/// The parameters of a redirect that matter to the flow.
pub struct CallbackFields {
    pub code: Option<Seq<char>>,
    pub error: Option<Seq<char>>,
    pub description: Option<Seq<char>>,
}

/// The fields after one more parameter. The key is what stands before the
/// first `=`, the value is the decoding of what stands after it. A parameter
/// named `code`, `error` or `error_description` replaces that field, with no
/// value when it holds no `=`.
pub open spec fn apply_param(st: CallbackFields, p: Seq<char>) -> CallbackFields {
    let key = before(p, '=');
    let value = match after(p, '=') {
        Some(v) => Some(url_decode_spec(v)),
        None => None,
    };
    if key == "code"@ {
        CallbackFields { code: value, ..st }
    } else if key == "error"@ {
        CallbackFields { error: value, ..st }
    } else if key == "error_description"@ {
        CallbackFields { description: value, ..st }
    } else {
        st
    }
}

/// The fields after all the parameters of a query, taken from left to right.
pub open spec fn scan_params(q: Seq<char>, st: CallbackFields) -> CallbackFields
    decreases q.len(),
{
    let next = apply_param(st, before(q, '&'));
    let n = run_len(q, Stop::At('&'));
    if 0 <= n < q.len() {
        scan_params(q.skip(n + 1), next)
    } else {
        next
    }
}

/// The fields that a request carries.
pub open spec fn callback_fields(request: Seq<char>) -> CallbackFields {
    scan_params(
        query_of(second_word(first_line(request))),
        CallbackFields { code: None, error: None, description: None },
    )
}

fn first_line_of(v: &Vec<char>) -> (r: Vec<char>)
    ensures
        r@ == first_line(v@),
{
    assert(v@.skip(0) =~= v@);
    let n: usize = run_end(v, 0, Stop::At('\n'));
    let end: usize = if n < v.len() && n > 0 && v[n - 1] == '\r' {
        n - 1
    } else {
        n
    };
    let r = slice_of(v, 0, end);
    assert(v@.subrange(0, end as int) =~= v@.take(end as int));
    r
}

fn second_word_of(line: &Vec<char>) -> (r: Vec<char>)
    ensures
        r@ == second_word(line@),
{
    assert(line@.skip(0) =~= line@);
    let i0: usize = run_end(line, 0, Stop::Word);
    let ghost a = line@.skip(i0 as int);
    let i1: usize = run_end(line, i0, Stop::Space);
    let ghost b = a.skip(i1 - i0);
    assert(b =~= line@.skip(i1 as int));
    let i2: usize = run_end(line, i1, Stop::Word);
    let ghost c = b.skip(i2 - i1);
    assert(c =~= line@.skip(i2 as int));
    let i3: usize = run_end(line, i2, Stop::Space);
    let r = slice_of(line, i2, i3);
    assert(line@.subrange(i2 as int, i3 as int) =~= c.take(i3 - i2));
    r
}

fn query_chars(path: &Vec<char>) -> (r: Vec<char>)
    ensures
        r@ == query_of(path@),
{
    match take_after(path, '?') {
        Some(rest) => take_before(&rest, '?'),
        None => Vec::new(),
    }
}

/// The fields as the parser holds them.
struct Fields {
    code: Option<Vec<char>>,
    error: Option<Vec<char>>,
    description: Option<Vec<char>>,
}

spec fn opt_view(o: Option<Vec<char>>) -> Option<Seq<char>> {
    match o {
        Some(v) => Some(v@),
        None => None,
    }
}

impl Fields {
    spec fn view(&self) -> CallbackFields {
        CallbackFields {
            code: opt_view(self.code),
            error: opt_view(self.error),
            description: opt_view(self.description),
        }
    }
}

fn name_is(key: &Vec<char>, name: &str) -> (r: bool)
    ensures
        r == (key@ == name@),
{
    let n = chars_of(name);
    chars_eq(key, &n)
}

fn with_param(st: Fields, p: &Vec<char>) -> (r: Fields)
    ensures
        r.view() == apply_param(st.view(), p@),
{
    let key = take_before(p, '=');
    let value: Option<Vec<char>> = match take_after(p, '=') {
        Some(v) => Some(url_decode_chars(&v)),
        None => None,
    };
    if name_is(&key, "code") {
        Fields { code: value, error: st.error, description: st.description }
    } else if name_is(&key, "error") {
        Fields { code: st.code, error: value, description: st.description }
    } else if name_is(&key, "error_description") {
        Fields { code: st.code, error: st.error, description: value }
    } else {
        st
    }
}

fn scan_query(query: Vec<char>) -> (r: Fields)
    ensures
        r.view() == scan_params(
            query@,
            CallbackFields { code: None, error: None, description: None },
        ),
{
    let ghost init = CallbackFields { code: None, error: None, description: None };
    let ghost q = query@;
    let mut st = Fields { code: None, error: None, description: None };
    let mut rest: Vec<char> = query;
    let mut done: bool = false;
    while !done
        invariant
            done ==> st.view() == scan_params(q, init),
            !done ==> scan_params(rest@, st.view()) == scan_params(q, init),
        decreases
            (if done {
                0int
            } else {
                1
            }),
            rest@.len(),
    {
        let p = take_before(&rest, '&');
        proof {
            lemma_run_len_bounds(rest@, Stop::At('&'));
        }
        st = with_param(st, &p);
        match take_after(&rest, '&') {
            Some(tail) => {
                rest = tail;
            },
            None => {
                done = true;
            },
        }
    }
    st
}

/// Extracts the authorisation code from the request that the browser sent to
/// the loopback listener. The code of the last `code` parameter is returned;
/// without one the request is refused, with the error and description that it
/// carries, or `unknown` and an empty description where it carries none.
pub fn parse_auth_callback(request: &str) -> (r: Result<String, AuthError>)
    ensures
        match r {
            Ok(code) => callback_fields(request@).code == Some(code@),
            Err(e) => {
                &&& callback_fields(request@).code is None
                &&& e is Denied
                &&& e->denied_error@ == match callback_fields(request@).error {
                    Some(x) => x,
                    None => "unknown"@,
                }
                &&& e->denied_description@ == match callback_fields(request@).description {
                    Some(x) => x,
                    None => Seq::<char>::empty(),
                }
            },
        },
{
    let v = chars_of(request);
    let line = first_line_of(&v);
    let path = second_word_of(&line);
    let query = query_chars(&path);
    let st = scan_query(query);
    match st.code {
        Some(code) => Ok(string_of(&code)),
        None => {
            let denied_error = match st.error {
                Some(e) => string_of(&e),
                None => String::from_str("unknown"),
            };
            let denied_description = match st.description {
                Some(d) => string_of(&d),
                None => String::new(),
            };
            Err(AuthError::Denied { denied_error, denied_description })
        },
    }
}

} // verus!

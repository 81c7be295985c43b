use vstd::prelude::*;

use crate::web::opt_text;
use vstd::std_specs::iter::IteratorSpec;

use crate::appctx::AppCtx;
use crate::error::{decimal, digit_char, Error};

verus! {

broadcast use vstd::string::group_string_axioms;

/// The characters of `s`, one by one.
fn chars_of(s: &str) -> (v: Vec<char>)
    ensures
        v@ == s@,
{
    let mut v: Vec<char> = Vec::new();
    for c in it: s.chars()
        invariant
            it.seq() == s@,
            v@ == s@.take(it.index()),
    {
        v.push(c);
    }
    v
}

/// Tokens begin with this.
pub open spec fn token_prefix() -> Seq<char> {
    seq!['u', 's', 'e', 'r', '-']
}

pub open spec fn is_ascii_digit(c: char) -> bool {
    '0' <= c && c <= '9'
}

/// The value of the decimal digit `c`.
pub open spec fn digit_of(c: char) -> nat {
    (c as int - '0' as int) as nat
}

/// The value of a run of decimal digits.
pub open spec fn digits_value(d: Seq<char>) -> nat
    decreases d.len(),
{
    if d.len() == 0 {
        0
    } else {
        digits_value(d.drop_last()) * 10 + digit_of(d.last())
    }
}

/// The end of the run of decimal digits of `s` that starts at `i`.
pub open spec fn digits_end(s: Seq<char>, i: int) -> int
    decreases s.len() - i,
{
    if 0 <= i < s.len() && is_ascii_digit(s[i]) {
        digits_end(s, i + 1)
    } else {
        i
    }
}

/// The end of the line of `s` that `i` is in: the first newline from `i` on, or the end.
pub open spec fn line_end(s: Seq<char>, i: int) -> int
    decreases s.len() - i,
{
    if 0 <= i < s.len() && s[i] != '\n' {
        line_end(s, i + 1)
    } else {
        i
    }
}

/// The last position `j` with `lo < j <= k` where `s` holds a dot, or `lo` if there is none.
pub open spec fn last_dot(s: Seq<char>, lo: int, k: int) -> int
    decreases k - lo,
{
    if k <= lo {
        lo
    } else if s[k] == '.' {
        k
    } else {
        last_dot(s, lo, k - 1)
    }
}

/// What the token `s` stands for: `user-<id>.<expiration>.<signature>`, where the
/// user id is a run of decimal digits that fits in 64 bits, the expiration runs
/// up to the last dot of the line that leaves a signature after it, and both are
/// nonempty. Text on the lines after the first is ignored.
pub open spec fn spec_parse_token(s: Seq<char>) -> Result<(u64, Seq<char>, Seq<char>), Error> {
    let wrong = Err(Error::AuthFailTokenWrongFormat);
    if s.len() >= 5 && s.subrange(0, 5) == token_prefix() {
        let d = digits_end(s, 5);
        if d > 5 && d < s.len() && s[d] == '.' {
            let q = d + 1;
            let e = line_end(s, q);
            let k = last_dot(s, q, e - 2);
            if k > q {
                let v = digits_value(s.subrange(5, d));
                if v <= u64::MAX {
                    Ok((v as u64, s.subrange(q, k), s.subrange(k + 1, e)))
                } else {
                    wrong
                }
            } else {
                wrong
            }
        } else {
            wrong
        }
    } else {
        wrong
    }
}

/// Parses a token of the form `user-<userID>.<expiration>.<signature>` and returns
/// (user id, expiration, signature).
pub fn parse_token(token: String) -> (r: Result<(u64, String, String), Error>)
    ensures
        match r {
            Ok((id, expiration, signature)) => spec_parse_token(token@) == Ok::<(u64, Seq<char>, Seq<char>), Error>(
                (id, expiration@, signature@),
            ),
            Err(e) => spec_parse_token(token@) == Err::<(u64, Seq<char>, Seq<char>), Error>(e),
        },
{
    let s = chars_of(token.as_str());
    let n = s.len();
    if n < 5 || s[0] != 'u' || s[1] != 's' || s[2] != 'e' || s[3] != 'r' || s[4] != '-' {
        return Err(Error::AuthFailTokenWrongFormat);
    }
    assert(s@.subrange(0, 5) =~= token_prefix());

    // The user id: a run of digits, whose value is kept while it fits in 64 bits.
    let mut i: usize = 5;
    let mut value: u64 = 0;
    let mut overflow = false;
    while i < n && '0' <= s[i] && s[i] <= '9'
        invariant
            5 <= i <= n,
            n == s@.len(),
            digits_end(s@, 5) == digits_end(s@, i as int),
            !overflow ==> value == digits_value(s@.subrange(5, i as int)),
            overflow ==> digits_value(s@.subrange(5, i as int)) > u64::MAX,
        decreases n - i,
    {
        let c = s[i];
        let digit: u64 = (c as u32 - '0' as u32) as u64;
        assert(s@.subrange(5, i + 1).drop_last() =~= s@.subrange(5, i as int));
        assert(s@.subrange(5, i + 1).last() == c);
        if !overflow {
            match value.checked_mul(10) {
                Some(m) => match m.checked_add(digit) {
                    Some(x) => {
                        value = x;
                    },
                    None => {
                        overflow = true;
                    },
                },
                None => {
                    overflow = true;
                },
            }
        }
        i = i + 1;
    }
    if i == 5 || i >= n || s[i] != '.' {
        return Err(Error::AuthFailTokenWrongFormat);
    }
    let q: usize = i + 1;

    // The end of the first line.
    let mut e: usize = q;
    while e < n && s[e] != '\n'
        invariant
            q <= e <= n,
            n == s@.len(),
            line_end(s@, q as int) == line_end(s@, e as int),
        decreases n - e,
    {
        e = e + 1;
    }
    if e - q < 3 {
        return Err(Error::AuthFailTokenWrongFormat);
    }

    // The last dot of the line that leaves something on both sides.
    let mut k: usize = e - 2;
    while k > q && s[k] != '.'
        invariant
            q <= k <= e - 2,
            e <= n,
            n == s@.len(),
            last_dot(s@, q as int, e - 2) == last_dot(s@, q as int, k as int),
        decreases k,
    {
        k = k - 1;
    }
    if k == q {
        return Err(Error::AuthFailTokenWrongFormat);
    }
    if overflow {
        return Err(Error::AuthFailTokenWrongFormat);
    }
    let expiration = String::from_str(token.as_str().substring_char(q, k));
    let signature = String::from_str(token.as_str().substring_char(k + 1, e));
    Ok((value, expiration, signature))
}

/// What a request's token cookie resolves to: no cookie, a token that does not
/// parse, or the user that the token names.
pub open spec fn spec_resolve_ctx(auth_token: Option<Seq<char>>) -> Result<u64, Error> {
    match auth_token {
        None => Err(Error::AuthFailNoAuthTokenCookie),
        Some(t) => match spec_parse_token(t) {
            Ok((user_id, _, _)) => Ok(user_id),
            Err(e) => Err(e),
        },
    }
}

/// Resolves the request context from the value of the token cookie, if the request
/// has one.
pub fn resolve_ctx(auth_token: Option<String>) -> (r: Result<AppCtx, Error>)
    ensures
        match spec_resolve_ctx(opt_text(auth_token)) {
            Ok(user_id) => r matches Ok(ctx) && ctx.spec_user_id() == user_id,
            Err(e) => r == Err::<AppCtx, Error>(e),
        },
        match auth_token {
            None => r == Err::<AppCtx, Error>(Error::AuthFailNoAuthTokenCookie),
            Some(t) => match spec_parse_token(t@) {
                Ok((id, _, _)) => r matches Ok(ctx) && ctx.spec_user_id() == id,
                Err(_) => r == Err::<AppCtx, Error>(Error::AuthFailTokenWrongFormat),
            },
        },
{
    match auth_token {
        None => Err(Error::AuthFailNoAuthTokenCookie),
        Some(token) => match parse_token(token) {
            Ok((user_id, _, _)) => Ok(AppCtx::new(user_id)),
            Err(e) => Err(e),
        },
    }
}

/// Whether the token cookie must be removed: when resolving failed for any reason
/// but the want of a cookie.
pub fn cookie_must_be_removed(result_ctx: &Result<AppCtx, Error>) -> (b: bool)
    ensures
        b == match result_ctx {
            Ok(_) => false,
            Err(e) => *e != Error::AuthFailNoAuthTokenCookie,
        },
{
    match result_ctx {
        Ok(_) => false,
        Err(Error::AuthFailNoAuthTokenCookie) => false,
        Err(_) => true,
    }
}

/// The decision of the route guard: a request goes on only with a resolved context,
/// and is otherwise answered with the error that resolving gave.
pub fn require_auth(app_ctx: Result<AppCtx, Error>) -> (r: Result<(), Error>)
    ensures
        match app_ctx {
            Ok(_) => r == Ok::<(), Error>(()),
            Err(e) => r == Err::<(), Error>(e),
        },
{
    match app_ctx {
        Ok(_) => Ok(()),
        Err(e) => Err(e),
    }
}

/// The context that a handler gets from what the resolver stored with the request,
/// if it stored anything.
pub fn ctx_from_extension(stored: Option<&Result<AppCtx, Error>>) -> (r: Result<AppCtx, Error>)
    ensures
        match stored {
            None => r == Err::<AppCtx, Error>(Error::AuthFailAppCtxNotInRequestExt),
            Some(res) => r == *res,
        },
{
    match stored {
        None => Err(Error::AuthFailAppCtxNotInRequestExt),
        Some(res) => *res,
    }
}

/// The decimal notation reads back as the number it was written from, all of it
/// decimal digits, and without a leading zero.
pub proof fn law_decimal_reads_back(n: nat)
    ensures
        digits_value(decimal(n)) == n,
        decimal(n).len() >= 1,
        forall|k: int| 0 <= k < decimal(n).len() ==> is_ascii_digit(#[trigger] decimal(n)[k]),
        n > 0 ==> decimal(n)[0] != '0',
    decreases n,
{
    lemma_decimal_digits(n);
    if n >= 10 {
        law_decimal_reads_back(n / 10);
        assert(decimal(n)[0] == decimal(n / 10)[0]);
    }
}

proof fn lemma_decimal_digits(n: nat)
    ensures
        decimal(n).len() >= 1,
        forall|k: int| 0 <= k < decimal(n).len() ==> is_ascii_digit(#[trigger] decimal(n)[k]),
        digits_value(decimal(n)) == n,
    decreases n,
{
    let d = n % 10;
    assert(is_ascii_digit(digit_char(d)) && digit_of(digit_char(d)) == d);
    if n >= 10 {
        lemma_decimal_digits(n / 10);
        let init = decimal(n / 10);
        assert(decimal(n).drop_last() =~= init);
        assert(decimal(n).last() == digit_char(d));
        assert(digits_value(decimal(n)) == digits_value(init) * 10 + digit_of(digit_char(d)));
        assert((n / 10) * 10 + n % 10 == n);
        assert forall|k: int| 0 <= k < decimal(n).len() implies is_ascii_digit(#[trigger] decimal(n)[k]) by {
            if k < init.len() {
                assert(decimal(n)[k] == init[k]);
            }
        }
    } else {
        assert(decimal(n).drop_last() =~= Seq::<char>::empty());
        assert(decimal(n).last() == digit_char(d));
        assert(digits_value(Seq::<char>::empty()) == 0);
        assert(digits_value(decimal(n)) == digits_value(decimal(n).drop_last()) * 10 + digit_of(digit_char(d)));
    }
}

proof fn lemma_digits_end(s: Seq<char>, i: int, end: int)
    requires
        0 <= i <= end < s.len(),
        forall|k: int| i <= k < end ==> is_ascii_digit(#[trigger] s[k]),
        !is_ascii_digit(s[end]),
    ensures
        digits_end(s, i) == end,
    decreases end - i,
{
    if i < end {
        lemma_digits_end(s, i + 1, end);
    }
}

proof fn lemma_line_end(s: Seq<char>, i: int)
    requires
        0 <= i <= s.len(),
        forall|k: int| i <= k < s.len() ==> #[trigger] s[k] != '\n',
    ensures
        line_end(s, i) == s.len(),
    decreases s.len() - i,
{
    if i < s.len() {
        lemma_line_end(s, i + 1);
    }
}

proof fn lemma_last_dot_skips(s: Seq<char>, lo: int, m: int, k: int)
    requires
        lo <= m <= k,
        forall|j: int| m < j <= k ==> #[trigger] s[j] != '.',
    ensures
        last_dot(s, lo, k) == last_dot(s, lo, m),
    decreases k - m,
{
    if m < k {
        lemma_last_dot_skips(s, lo, m, k - 1);
    }
}

/// The token that `parse_token` reads as (user id, expiration, signature).
pub open spec fn format_token(user_id: u64, expiration: Seq<char>, signature: Seq<char>) -> Seq<char> {
    token_prefix() + decimal(user_id as nat) + seq!['.'] + expiration + seq!['.'] + signature
}

/// A token written as `user-<id>.<expiration>.<signature>` parses back to what it was
/// written from, whenever expiration and signature are nonempty and on one line and
/// the signature holds no dot.
pub proof fn law_parse_formatted_token(user_id: u64, expiration: Seq<char>, signature: Seq<char>)
    requires
        expiration.len() > 0,
        signature.len() > 0,
        forall|k: int| 0 <= k < expiration.len() ==> #[trigger] expiration[k] != '\n',
        forall|k: int| 0 <= k < signature.len() ==> #[trigger] signature[k] != '\n' && signature[k] != '.',
    ensures
        spec_parse_token(format_token(user_id, expiration, signature))
            == Ok::<(u64, Seq<char>, Seq<char>), Error>((user_id, expiration, signature)),
{
    let digits = decimal(user_id as nat);
    let s = format_token(user_id, expiration, signature);
    let d: int = 5 + digits.len() as int;
    let q: int = d + 1;
    let dot: int = q + expiration.len();
    let e: int = dot + 1 + signature.len();
    lemma_decimal_digits(user_id as nat);
    assert(s.len() == e);
    assert(s.subrange(0, 5) =~= token_prefix());
    assert(s.subrange(5, d) =~= digits);
    assert forall|k: int| 5 <= k < d implies is_ascii_digit(#[trigger] s[k]) by {
        assert(s[k] == digits[k - 5]);
    }
    assert(s[d] == '.');
    lemma_digits_end(s, 5, d);
    assert forall|k: int| q <= k < s.len() implies #[trigger] s[k] != '\n' by {
        if k < dot {
            assert(s[k] == expiration[k - q]);
        } else if k > dot {
            assert(s[k] == signature[k - dot - 1]);
        }
    }
    lemma_line_end(s, q);
    assert forall|j: int| dot < j <= e - 2 implies #[trigger] s[j] != '.' by {
        assert(s[j] == signature[j - dot - 1]);
    }
    assert(s[dot] == '.');
    lemma_last_dot_skips(s, q, dot, e - 2);
    assert(s.subrange(q, dot) =~= expiration);
    assert(s.subrange(dot + 1, e) =~= signature);
}

/// A token that does not parse is refused as wrongly formatted, whatever is wrong with it.
pub proof fn law_parse_refuses_as_wrong_format(s: Seq<char>)
    requires
        spec_parse_token(s) is Err,
    ensures
        spec_parse_token(s) == Err::<(u64, Seq<char>, Seq<char>), Error>(Error::AuthFailTokenWrongFormat),
{
}

/// The cookie is removed exactly when the request carried one and its token did not
/// resolve to a user.
pub proof fn law_cookie_removed_iff_token_refused(auth_token: Option<Seq<char>>)
    ensures
        (spec_resolve_ctx(auth_token) is Err
            && spec_resolve_ctx(auth_token) != Err::<u64, Error>(Error::AuthFailNoAuthTokenCookie))
            <==> (auth_token is Some && spec_parse_token(auth_token->0) is Err),
{
}

/// Whenever a token parses, resolving it gives the context of exactly the user that
/// the token names.
pub proof fn law_resolve_gives_parsed_user(t: Seq<char>)
    ensures
        spec_parse_token(t) matches Ok((id, _, _)) ==> spec_resolve_ctx(Some(t)) == Ok::<u64, Error>(id),
        spec_parse_token(t) is Err ==> spec_resolve_ctx(Some(t)) == Err::<u64, Error>(Error::AuthFailTokenWrongFormat),
        spec_resolve_ctx(None) == Err::<u64, Error>(Error::AuthFailNoAuthTokenCookie),
{
}

/// The token `user-<id>.<expiration>.<signature>` resolves to user `id`, whenever
/// expiration and signature are nonempty and on one line and the signature has no dot.
pub proof fn law_resolve_formatted_token(user_id: u64, expiration: Seq<char>, signature: Seq<char>)
    requires
        expiration.len() > 0,
        signature.len() > 0,
        forall|k: int| 0 <= k < expiration.len() ==> #[trigger] expiration[k] != '\n',
        forall|k: int| 0 <= k < signature.len() ==> #[trigger] signature[k] != '\n' && signature[k] != '.',
    ensures
        spec_resolve_ctx(Some(format_token(user_id, expiration, signature))) == Ok::<u64, Error>(user_id),
{
    law_parse_formatted_token(user_id, expiration, signature);
}

proof fn lemma_digits_end_props(s: Seq<char>, i: int)
    requires
        0 <= i <= s.len(),
    ensures
        i <= digits_end(s, i) <= s.len(),
        forall|k: int| i <= k < digits_end(s, i) ==> is_ascii_digit(#[trigger] s[k]),
        digits_end(s, i) == s.len() || !is_ascii_digit(s[digits_end(s, i)]),
    decreases s.len() - i,
{
    if i < s.len() && is_ascii_digit(s[i]) {
        lemma_digits_end_props(s, i + 1);
    }
}

proof fn lemma_line_end_props(s: Seq<char>, i: int)
    requires
        0 <= i <= s.len(),
    ensures
        i <= line_end(s, i) <= s.len(),
        forall|k: int| i <= k < line_end(s, i) ==> #[trigger] s[k] != '\n',
        line_end(s, i) == s.len() || s[line_end(s, i)] == '\n',
    decreases s.len() - i,
{
    if i < s.len() && s[i] != '\n' {
        lemma_line_end_props(s, i + 1);
    }
}

proof fn lemma_last_dot_props(s: Seq<char>, lo: int, k: int)
    ensures
        lo <= last_dot(s, lo, k),
        last_dot(s, lo, k) > lo ==> last_dot(s, lo, k) <= k && s[last_dot(s, lo, k)] == '.',
        forall|j: int| last_dot(s, lo, k) < j <= k ==> #[trigger] s[j] != '.',
    decreases k - lo,
{
    if k > lo && s[k] != '.' {
        lemma_last_dot_props(s, lo, k - 1);
    }
}

/// A token that parses has the documented form: `user-`, a run of decimal digits worth
/// the user id, a dot, the expiration, a dot, and the signature, up to the end of the
/// token or of its first line; expiration and signature are nonempty and on that line,
/// and the signature holds no dot before its last character.
pub proof fn law_parsed_token_has_the_form(t: Seq<char>)
    ensures
        spec_parse_token(t) matches Ok((id, expiration, signature)) ==> exists|n: int| #![trigger t[n]] {
            let dot = n + 1 + expiration.len();
            let end = dot + 1 + signature.len();
            &&& 5 < n && end <= t.len()
            &&& t.subrange(0, 5) == token_prefix()
            &&& (forall|k: int| 5 <= k < n ==> is_ascii_digit(#[trigger] t[k]))
            &&& digits_value(t.subrange(5, n)) == id
            &&& t[n] == '.'
            &&& t.subrange(n + 1, dot) == expiration
            &&& t[dot] == '.'
            &&& t.subrange(dot + 1, end) == signature
            &&& (end == t.len() || t[end] == '\n')
            &&& expiration.len() > 0 && signature.len() > 0
            &&& (forall|k: int| 0 <= k < expiration.len() ==> #[trigger] expiration[k] != '\n')
            &&& (forall|k: int| 0 <= k < signature.len() ==> #[trigger] signature[k] != '\n')
            &&& (forall|k: int| 0 <= k < signature.len() - 1 ==> #[trigger] signature[k] != '.')
        },
{
    if spec_parse_token(t) is Ok {
        let n = digits_end(t, 5);
        lemma_digits_end_props(t, 5);
        let q = n + 1;
        let e = line_end(t, q);
        lemma_line_end_props(t, q);
        let k = last_dot(t, q, e - 2);
        lemma_last_dot_props(t, q, e - 2);
        let expiration = t.subrange(q, k);
        let signature = t.subrange(k + 1, e);
        assert forall|j: int| 0 <= j < expiration.len() implies #[trigger] expiration[j] != '\n' by {
            assert(expiration[j] == t[q + j]);
        }
        assert forall|j: int| 0 <= j < signature.len() implies #[trigger] signature[j] != '\n' by {
            assert(signature[j] == t[k + 1 + j]);
        }
        assert forall|j: int| 0 <= j < signature.len() - 1 implies #[trigger] signature[j] != '.' by {
            assert(signature[j] == t[k + 1 + j]);
        }
        assert(t[n] == '.');
    }
}

} // verus!

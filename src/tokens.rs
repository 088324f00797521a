use crate::vars::{
    PairsView, VarMap, Variable, lookup, variables_view, find_default,
};
use vstd::prelude::*;

verus! {

/// The three families of tokens: `${VAR:k}`, `${ENV:k}` and `${RUN:k}`.
#[derive(Clone, Copy, Debug, PartialEq, Eq, Structural)]
pub enum TokenKind {
    Variable,
    Environment,
    RunProperty,
}

/// Why a text could not be expanded.
#[derive(Clone, Copy, Debug, PartialEq, Eq, Structural)]
pub enum TokenError {
    /// A token opens but no `}` closes it.
    Unterminated,
    /// A token names no key: `${VAR:}`.
    EmptyKey,
    /// A `${RUN:k}` token whose key is neither `id` nor `start_time`.
    UnknownRunProperty,
}

/// What substitution reads: the run's identity and the four sources of values.
pub struct ContextView {
    pub run_id: Seq<char>,
    pub start_time: Seq<char>,
    pub vars: PairsView,
    pub env: PairsView,
    pub var_defaults: PairsView,
    pub env_defaults: PairsView,
}

/// The family of the token that starts at position `i`, if one does.
pub open spec fn token_kind_at(s: Seq<char>, i: int) -> Option<TokenKind> {
    if 0 <= i && i + 6 <= s.len() && s[i] == '$' && s[i + 1] == '{' && s[i + 5] == ':' {
        if s[i + 2] == 'V' && s[i + 3] == 'A' && s[i + 4] == 'R' {
            Some(TokenKind::Variable)
        } else if s[i + 2] == 'E' && s[i + 3] == 'N' && s[i + 4] == 'V' {
            Some(TokenKind::Environment)
        } else if s[i + 2] == 'R' && s[i + 3] == 'U' && s[i + 4] == 'N' {
            Some(TokenKind::RunProperty)
        } else {
            None
        }
    } else {
        None
    }
}

/// No token starts anywhere in `s`.
pub open spec fn token_free(s: Seq<char>) -> bool {
    forall|i: int| 0 <= i < s.len() ==> token_kind_at(s, i) is None
}

/// The position of the first `}` at or after `j`.
pub open spec fn close_from(s: Seq<char>, j: int) -> Option<int>
    decreases s.len() - j,
{
    if j < 0 || j >= s.len() {
        None
    } else if s[j] == '}' {
        Some(j)
    } else {
        close_from(s, j + 1)
    }
}

pub proof fn lemma_close_bounds(s: Seq<char>, j: int)
    ensures
        close_from(s, j) matches Some(k) ==> j <= k < s.len() && s[k] == '}' && forall|m: int|
            j <= m < k ==> s[m] != '}',
    decreases s.len() - j,
{
    if 0 <= j < s.len() && s[j] != '}' {
        lemma_close_bounds(s, j + 1);
    }
}

/// A declared value: the caller's, else the pipeline's default, else empty.
pub open spec fn declared_value(given: PairsView, defaults: PairsView, key: Seq<char>) -> Seq<
    char,
> {
    match lookup(given, key) {
        Some(v) => v,
        None => match lookup(defaults, key) {
            Some(v) => v,
            None => Seq::empty(),
        },
    }
}

/// The value that a token of family `kind` with key `key` stands for.
pub open spec fn resolve(ctx: ContextView, kind: TokenKind, key: Seq<char>) -> Result<
    Seq<char>,
    TokenError,
> {
    if key.len() == 0 {
        Err(TokenError::EmptyKey)
    } else {
        match kind {
            TokenKind::Variable => Ok(declared_value(ctx.vars, ctx.var_defaults, key)),
            TokenKind::Environment => Ok(declared_value(ctx.env, ctx.env_defaults, key)),
            TokenKind::RunProperty => if key == "id"@ {
                Ok(ctx.run_id)
            } else if key == "start_time"@ {
                Ok(ctx.start_time)
            } else {
                Err(TokenError::UnknownRunProperty)
            },
        }
    }
}

/// `p` in front of a successful result; an error stays as it is.
pub open spec fn prefixed(p: Seq<char>, r: Result<Seq<char>, TokenError>) -> Result<
    Seq<char>,
    TokenError,
> {
    match r {
        Ok(x) => Ok(p + x),
        Err(e) => Err(e),
    }
}

/// Expansion of `s` from position `i` on, in one pass from left to right: the
/// value of a token is copied as it is and never read again for tokens.
pub open spec fn expand_from(ctx: ContextView, s: Seq<char>, i: int) -> Result<
    Seq<char>,
    TokenError,
>
    decreases s.len() - i,
    via expand_from_decreases
{
    if i < 0 || i >= s.len() {
        Ok(Seq::empty())
    } else {
        match token_kind_at(s, i) {
            Some(kind) => match close_from(s, i + 6) {
                None => Err(TokenError::Unterminated),
                Some(k) => match resolve(ctx, kind, s.subrange(i + 6, k)) {
                    Err(e) => Err(e),
                    Ok(v) => prefixed(v, expand_from(ctx, s, k + 1)),
                },
            },
            None => prefixed(seq![s[i]], expand_from(ctx, s, i + 1)),
        }
    }
}

#[via_fn]
proof fn expand_from_decreases(ctx: ContextView, s: Seq<char>, i: int) {
    lemma_close_bounds(s, i + 6);
}

/// The expansion of the whole of `s`.
pub open spec fn expand(ctx: ContextView, s: Seq<char>) -> Result<Seq<char>, TokenError> {
    expand_from(ctx, s, 0)
}

/// A text without tokens expands to itself.
pub proof fn lemma_token_free_expands_to_itself(ctx: ContextView, s: Seq<char>, i: int)
    requires
        token_free(s),
        0 <= i <= s.len(),
    ensures
        expand_from(ctx, s, i) == Ok::<Seq<char>, TokenError>(s.subrange(i, s.len() as int)),
    decreases s.len() - i,
{
    if i < s.len() {
        lemma_token_free_expands_to_itself(ctx, s, i + 1);
        assert(seq![s[i]] + s.subrange(i + 1, s.len() as int) =~= s.subrange(i, s.len() as int));
    } else {
        assert(s.subrange(i, s.len() as int) =~= Seq::<char>::empty());
    }
}

/// Substitution is idempotent: where the expansion of `s` holds no token,
/// expanding that result again gives it back unchanged.
pub proof fn lemma_apply_idempotent(ctx: ContextView, s: Seq<char>)
    requires
        expand(ctx, s) is Ok,
        token_free(expand(ctx, s)->Ok_0),
    ensures
        expand(ctx, expand(ctx, s)->Ok_0) == expand(ctx, s),
{
    let o = expand(ctx, s)->Ok_0;
    lemma_token_free_expands_to_itself(ctx, o, 0);
    assert(o.subrange(0, o.len() as int) =~= o);
}

/// Everything that substitution reads while a run goes on.
pub struct TokenContext {
    pub run_id: String,
    pub run_start_time: String,
    pub variables: VarMap,
    pub environment: VarMap,
    pub pipeline_variables: Vec<Variable>,
    pub pipeline_environment: Vec<Variable>,
}

impl View for TokenContext {
    type V = ContextView;

    open spec fn view(&self) -> ContextView {
        ContextView {
            run_id: self.run_id@,
            start_time: self.run_start_time@,
            vars: self.variables@,
            env: self.environment@,
            var_defaults: variables_view(self.pipeline_variables@),
            env_defaults: variables_view(self.pipeline_environment@),
        }
    }
}

/// The family of the token at `i`.
fn token_kind_at_exec(s: &str, n: usize, i: usize) -> (r: Option<TokenKind>)
    requires
        n == s@.len(),
    ensures
        r == token_kind_at(s@, i as int),
{
    if n < 6 || i > n - 6 {
        return None;
    }
    if s.get_char(i) != '$' || s.get_char(i + 1) != '{' || s.get_char(i + 5) != ':' {
        return None;
    }
    let a = s.get_char(i + 2);
    let b = s.get_char(i + 3);
    let c = s.get_char(i + 4);
    if a == 'V' && b == 'A' && c == 'R' {
        Some(TokenKind::Variable)
    } else if a == 'E' && b == 'N' && c == 'V' {
        Some(TokenKind::Environment)
    } else if a == 'R' && b == 'U' && c == 'N' {
        Some(TokenKind::RunProperty)
    } else {
        None
    }
}

/// The position of the first `}` at or after `j`.
fn find_close(s: &str, n: usize, j: usize) -> (r: Option<usize>)
    requires
        n == s@.len(),
    ensures
        r matches Some(k) ==> close_from(s@, j as int) == Some(k as int),
        r is None ==> close_from(s@, j as int) is None,
{
    let mut k: usize = j;
    while k < n
        invariant
            n == s@.len(),
            j <= k,
            close_from(s@, j as int) == close_from(s@, k as int),
        decreases n - k,
    {
        if s.get_char(k) == '}' {
            return Some(k);
        }
        k = k + 1;
    }
    None
}

impl TokenContext {
    /// The value that a token of family `kind` with key `key` stands for.
    pub fn resolve(&self, kind: TokenKind, key: &String) -> (r: Result<String, TokenError>)
        ensures
            r matches Ok(v) ==> resolve(self@, kind, key@) == Ok::<Seq<char>, TokenError>(v@),
            r matches Err(e) ==> resolve(self@, kind, key@) == Err::<Seq<char>, TokenError>(e),
    {
        if key.as_str().unicode_len() == 0 {
            return Err(TokenError::EmptyKey);
        }
        match kind {
            TokenKind::Variable => Ok(
                Self::declared(&self.variables, &self.pipeline_variables, key),
            ),
            TokenKind::Environment => Ok(
                Self::declared(&self.environment, &self.pipeline_environment, key),
            ),
            TokenKind::RunProperty => {
                if *key == String::from_str("id") {
                    Ok(self.run_id.clone())
                } else if *key == String::from_str("start_time") {
                    Ok(self.run_start_time.clone())
                } else {
                    Err(TokenError::UnknownRunProperty)
                }
            },
        }
    }

    fn declared(given: &VarMap, defaults: &Vec<Variable>, key: &String) -> (r: String)
        ensures
            r@ == declared_value(given@, variables_view(defaults@), key@),
    {
        match given.get(key) {
            Some(v) => v,
            None => match find_default(defaults, key) {
                Some(v) => v,
                None => String::new(),
            },
        }
    }

    /// Replaces every token of `txt` with its value, in one pass.
    pub fn apply_context(&self, txt: &str) -> (r: Result<String, TokenError>)
        ensures
            r matches Ok(o) ==> expand(self@, txt@) == Ok::<Seq<char>, TokenError>(o@),
            r matches Err(e) ==> expand(self@, txt@) == Err::<Seq<char>, TokenError>(e),
    {
        let ghost ctx = self@;
        let n = txt.unicode_len();
        let mut out = String::new();
        let mut i: usize = 0;
        while i < n
            invariant
                n == txt@.len(),
                i <= n,
                ctx == self@,
                expand(ctx, txt@) == prefixed(out@, expand_from(ctx, txt@, i as int)),
            decreases n - i,
        {
            match token_kind_at_exec(txt, n, i) {
                Some(kind) => {
                    let close = find_close(txt, n, i + 6);
                    proof {
                        lemma_close_bounds(txt@, i + 6);
                    }
                    match close {
                        None => {
                            return Err(TokenError::Unterminated);
                        },
                        Some(k) => {
                            let key = String::from_str(txt.substring_char(i + 6, k));
                            let v = self.resolve(kind, &key);
                            match v {
                                Err(e) => {
                                    return Err(e);
                                },
                                Ok(v) => {
                                    let ghost pre = out@;
                                    out.append(v.as_str());
                                    proof {
                                        let rest = expand_from(ctx, txt@, k + 1);
                                        assert(prefixed(pre, prefixed(v@, rest)) == prefixed(
                                            pre + v@,
                                            rest,
                                        )) by {
                                            if rest is Ok {
                                                assert(pre + (v@ + rest->Ok_0) =~= (pre + v@)
                                                    + rest->Ok_0);
                                            }
                                        }
                                    }
                                    i = k + 1;
                                },
                            }
                        },
                    }
                },
                None => {
                    let ghost pre = out@;
                    out.append(txt.substring_char(i, i + 1));
                    proof {
                        let rest = expand_from(ctx, txt@, i + 1);
                        assert(txt@.subrange(i as int, i + 1) =~= seq![txt@[i as int]]);
                        if rest is Ok {
                            assert(pre + (seq![txt@[i as int]] + rest->Ok_0) =~= (pre
                                + seq![txt@[i as int]]) + rest->Ok_0);
                        }
                    }
                    i = i + 1;
                },
            }
        }
        proof {
            assert(out@ + Seq::<char>::empty() =~= out@);
        }
        Ok(out)
    }
}

} // verus!

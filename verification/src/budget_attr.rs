//! The argument grammar of the budget attributes.
//!
//! `#[budget_cpu_lt(..)]` and `#[budget_mem_lt(..)]` take one limit: an
//! integer literal, `env = "VAR"` or `config = "key"`. `#[budget_lt(..)]`
//! takes a comma-separated list of `cpu = <limit>`, `mem = <limit>` and
//! `env_ident = <ident>`, with at least one of `cpu` and `mem`.
//!
//! The attribute's tokens arrive as [`AttrToken`]s; group tokens and
//! keywords arrive as `Other`.
use vstd::prelude::*;
use crate::text::str_eq;

verus! {

/// One token of an attribute's arguments.
#[derive(Debug)]
pub enum AttrToken {
    /// An identifier that is not a keyword.
    Ident(String),
    /// A punctuation character.
    Punct(char),
    /// An integer literal; `None` when its value does not fit in a `u64`.
    Int(Option<u64>),
    /// A string literal, by its value.
    Str(String),
    /// Any other token.
    Other,
}

/// Where a budget limit comes from.
#[derive(Debug)]
pub enum BudgetLimit {
    /// A fixed limit.
    Int(u64),
    /// The limit is read from this environment variable when the test runs.
    EnvVar(String),
    /// The limit is the value of this key in `budget.json`.
    Config(String),
}

/// The arguments of `#[budget_lt(..)]`.
#[derive(Debug)]
pub struct BudgetSpec {
    pub cpu: Option<BudgetLimit>,
    pub mem: Option<BudgetLimit>,
    /// The name of the test's `Env` variable; `env` when absent.
    pub env_ident: Option<String>,
}

/// Why an attribute's arguments are rejected.
#[derive(Debug)]
pub enum AttrError {
    /// An identifier was expected.
    ExpectedIdent,
    /// `=` was expected.
    ExpectedEquals,
    /// A string literal was expected.
    ExpectedStr,
    /// An integer literal was expected.
    ExpectedInt,
    /// `,` was expected between properties.
    ExpectedComma,
    /// Tokens follow a complete limit.
    UnexpectedToken,
    /// The integer literal does not fit in a `u64`.
    IntTooLarge,
    /// A named limit other than `env` or `config`.
    UnknownLimitSource(String),
    /// A property other than `cpu`, `mem` or `env_ident`.
    UnknownProperty(String),
    /// Neither `cpu` nor `mem` was given.
    MissingLimit,
}

/// The token at `p`, if any.
pub open spec fn token_at(t: Seq<AttrToken>, p: int) -> Option<AttrToken> {
    if 0 <= p < t.len() {
        Some(t[p])
    } else {
        None
    }
}

/// Parses one limit starting at `p`; on success, the limit and the position
/// after it.
pub open spec fn parse_limit_at(t: Seq<AttrToken>, p: int) -> Result<(BudgetLimit, int), AttrError> {
    match token_at(t, p) {
        Some(AttrToken::Ident(name)) => {
            if token_at(t, p + 1) != Some(AttrToken::Punct('=')) {
                Err(AttrError::ExpectedEquals)
            } else {
                match token_at(t, p + 2) {
                    Some(AttrToken::Str(value)) => {
                        if name@ == "env"@ {
                            Ok((BudgetLimit::EnvVar(value), p + 3))
                        } else if name@ == "config"@ {
                            Ok((BudgetLimit::Config(value), p + 3))
                        } else {
                            Err(AttrError::UnknownLimitSource(name))
                        }
                    },
                    _ => Err(AttrError::ExpectedStr),
                }
            }
        },
        Some(AttrToken::Int(Some(n))) => Ok((BudgetLimit::Int(n), p + 1)),
        Some(AttrToken::Int(None)) => Err(AttrError::IntTooLarge),
        _ => Err(AttrError::ExpectedInt),
    }
}

/// The arguments of `#[budget_cpu_lt(..)]` or `#[budget_mem_lt(..)]`: one
/// limit and nothing after it.
pub open spec fn parse_limit_attr(t: Seq<AttrToken>) -> Result<BudgetLimit, AttrError> {
    match parse_limit_at(t, 0) {
        Ok((l, q)) => if q == t.len() {
            Ok(l)
        } else {
            Err(AttrError::UnexpectedToken)
        },
        Err(e) => Err(e),
    }
}

/// After a property that ends before `q`: a comma and the next property, or
/// the end of the arguments.
pub open spec fn parse_spec_after(t: Seq<AttrToken>, q: int, acc: BudgetSpec) -> Result<
    BudgetSpec,
    AttrError,
>
    decreases t.len() - q, 1int,
{
    if 0 <= q < t.len() {
        if t[q] == AttrToken::Punct(',') {
            parse_spec_from(t, q + 1, acc)
        } else {
            Err(AttrError::ExpectedComma)
        }
    } else {
        parse_spec_from(t, q, acc)
    }
}

/// Parses the properties of `#[budget_lt(..)]` from `p` on, with the ones
/// before `p` already in `acc`; a later property replaces an earlier one of
/// the same name.
pub open spec fn parse_spec_from(t: Seq<AttrToken>, p: int, acc: BudgetSpec) -> Result<
    BudgetSpec,
    AttrError,
>
    decreases t.len() - p, 0int,
{
    if p < 0 || p >= t.len() {
        if acc.cpu is None && acc.mem is None {
            Err(AttrError::MissingLimit)
        } else {
            Ok(acc)
        }
    } else {
        match t[p] {
            AttrToken::Ident(name) => {
                if token_at(t, p + 1) != Some(AttrToken::Punct('=')) {
                    Err(AttrError::ExpectedEquals)
                } else if name@ == "env_ident"@ {
                    match token_at(t, p + 2) {
                        Some(AttrToken::Ident(id)) => parse_spec_after(
                            t,
                            p + 3,
                            BudgetSpec { env_ident: Some(id), ..acc },
                        ),
                        _ => Err(AttrError::ExpectedIdent),
                    }
                } else if name@ == "cpu"@ {
                    match parse_limit_at(t, p + 2) {
                        Ok((l, q)) => parse_spec_after(t, q, BudgetSpec { cpu: Some(l), ..acc }),
                        Err(e) => Err(e),
                    }
                } else if name@ == "mem"@ {
                    match parse_limit_at(t, p + 2) {
                        Ok((l, q)) => parse_spec_after(t, q, BudgetSpec { mem: Some(l), ..acc }),
                        Err(e) => Err(e),
                    }
                } else {
                    Err(AttrError::UnknownProperty(name))
                }
            },
            _ => Err(AttrError::ExpectedIdent),
        }
    }
}

/// The arguments of `#[budget_lt(..)]`.
pub open spec fn parse_spec_attr(t: Seq<AttrToken>) -> Result<BudgetSpec, AttrError> {
    parse_spec_from(t, 0, BudgetSpec { cpu: None, mem: None, env_ident: None })
}

/// At `i` stands a `cpu = ` or `mem = ` property of `#[budget_lt(..)]`.
pub open spec fn limit_property_at(t: Seq<AttrToken>, i: int) -> bool {
    &&& 0 <= i && i + 1 < t.len()
    &&& t[i] matches AttrToken::Ident(name) && (name@ == "cpu"@ || name@ == "mem"@)
    &&& t[i + 1] == AttrToken::Punct('=')
}

proof fn lemma_missing_limit_after(t: Seq<AttrToken>, q: int, acc: BudgetSpec)
    requires
        q >= 0,
        parse_spec_after(t, q, acc) == Err::<BudgetSpec, AttrError>(AttrError::MissingLimit),
    ensures
        acc.cpu is None && acc.mem is None,
        q < t.len() ==> t[q] == AttrToken::Punct(','),
        forall|i: int| q <= i ==> !#[trigger] limit_property_at(t, i),
    decreases t.len() - q, 1int,
{
    if q < t.len() {
        lemma_missing_limit_from(t, q + 1, acc);
    } else {
        lemma_missing_limit_from(t, q, acc);
    }
}

proof fn lemma_missing_limit_from(t: Seq<AttrToken>, p: int, acc: BudgetSpec)
    requires
        p >= 0,
        parse_spec_from(t, p, acc) == Err::<BudgetSpec, AttrError>(AttrError::MissingLimit),
    ensures
        acc.cpu is None && acc.mem is None,
        forall|i: int| p <= i ==> !#[trigger] limit_property_at(t, i),
    decreases t.len() - p, 0int,
{
    if p < t.len() {
        let name = t[p]->Ident_0;
        reveal_strlit("env_ident");
        reveal_strlit("cpu");
        reveal_strlit("mem");
        assert("env_ident"@.len() == 9 && "cpu"@.len() == 3 && "mem"@.len() == 3);
        if name@ == "env_ident"@ {
            let id = t[p + 2]->Ident_0;
            lemma_missing_limit_after(t, p + 3, BudgetSpec { env_ident: Some(id), ..acc });
            assert(!limit_property_at(t, p));
            assert(!limit_property_at(t, p + 1));
            assert(!limit_property_at(t, p + 2));
        } else if name@ == "cpu"@ {
            let (l, q) = parse_limit_at(t, p + 2)->Ok_0;
            lemma_missing_limit_after(t, q, BudgetSpec { cpu: Some(l), ..acc });
        } else if name@ == "mem"@ {
            let (l, q) = parse_limit_at(t, p + 2)->Ok_0;
            lemma_missing_limit_after(t, q, BudgetSpec { mem: Some(l), ..acc });
        }
    }
}

/// `#[budget_lt(..)]` reports a missing limit only when its arguments hold
/// no `cpu = ` and no `mem = ` property at all: a budget that gives only a
/// memory limit, or only a CPU limit, is never refused for lack of a limit.
pub proof fn lemma_missing_limit_only_without_limits(t: Seq<AttrToken>)
    ensures
        parse_spec_attr(t) == Err::<BudgetSpec, AttrError>(AttrError::MissingLimit) ==> forall|
            i: int,
        | !#[trigger] limit_property_at(t, i),
{
    if parse_spec_attr(t) == Err::<BudgetSpec, AttrError>(AttrError::MissingLimit) {
        lemma_missing_limit_from(t, 0, BudgetSpec { cpu: None, mem: None, env_ident: None });
        assert forall|i: int| !#[trigger] limit_property_at(t, i) by {
            if i < 0 {
            }
        }
    }
}

/// `#[budget_lt(mem = N)]` and `#[budget_lt(cpu = N)]` are accepted for every
/// `N`, giving exactly that one limit.
pub proof fn lemma_single_limit_budget_accepted(name: String, n: u64)
    requires
        name@ == "mem"@ || name@ == "cpu"@,
    ensures
        ({
            let t = seq![AttrToken::Ident(name), AttrToken::Punct('='), AttrToken::Int(Some(n))];
            parse_spec_attr(t) matches Ok(s) && s.env_ident is None && if name@ == "mem"@ {
                s.cpu is None && s.mem == Some(BudgetLimit::Int(n))
            } else {
                s.mem is None && s.cpu == Some(BudgetLimit::Int(n))
            }
        }),
{
    let t = seq![AttrToken::Ident(name), AttrToken::Punct('='), AttrToken::Int(Some(n))];
    assert(t[0] == AttrToken::Ident(name));
    assert(token_at(t, 1) == Some(AttrToken::Punct('=')));
    assert(token_at(t, 2) == Some(AttrToken::Int(Some(n))));
    reveal_strlit("mem");
    reveal_strlit("cpu");
    reveal_strlit("env_ident");
    assert("env_ident"@.len() == 9 && "cpu"@.len() == 3 && "mem"@.len() == 3);
    assert(name@ != "env_ident"@);
    assert("cpu"@ != "mem"@) by {
        assert("cpu"@[0] != "mem"@[0]);
    }
    assert(parse_limit_at(t, 2) == Ok::<(BudgetLimit, int), AttrError>((BudgetLimit::Int(n), 3)));
    let acc0 = BudgetSpec { cpu: None, mem: None, env_ident: None };
    let acc1 = if name@ == "mem"@ {
        BudgetSpec { mem: Some(BudgetLimit::Int(n)), ..acc0 }
    } else {
        BudgetSpec { cpu: Some(BudgetLimit::Int(n)), ..acc0 }
    };
    assert(parse_spec_from(t, 3, acc1) == Ok::<BudgetSpec, AttrError>(acc1));
    assert(parse_spec_after(t, 3, acc1) == Ok::<BudgetSpec, AttrError>(acc1));
    assert(parse_spec_from(t, 0, acc0) == Ok::<BudgetSpec, AttrError>(acc1));
}

/// Parses one limit starting at `p`.
fn parse_limit_from(t: &Vec<AttrToken>, p: usize) -> (r: Result<(BudgetLimit, usize), AttrError>)
    ensures
        match parse_limit_at(t@, p as int) {
            Ok((l, q)) => r matches Ok((l2, q2)) && l2 == l && q2 == q,
            Err(e) => r == Err::<(BudgetLimit, usize), AttrError>(e),
        },
{
    if p >= t.len() {
        return Err(AttrError::ExpectedInt);
    }
    match &t[p] {
        AttrToken::Ident(name) => {
            let eq_next = p + 1 < t.len() && match &t[p + 1] {
                AttrToken::Punct(c) => *c == '=',
                _ => false,
            };
            if !eq_next {
                return Err(AttrError::ExpectedEquals);
            }
            if p + 2 >= t.len() {
                return Err(AttrError::ExpectedStr);
            }
            match &t[p + 2] {
                AttrToken::Str(value) => {
                    if str_eq(name.as_str(), "env") {
                        Ok((BudgetLimit::EnvVar(value.clone()), p + 3))
                    } else if str_eq(name.as_str(), "config") {
                        Ok((BudgetLimit::Config(value.clone()), p + 3))
                    } else {
                        Err(AttrError::UnknownLimitSource(name.clone()))
                    }
                },
                _ => Err(AttrError::ExpectedStr),
            }
        },
        AttrToken::Int(Some(n)) => Ok((BudgetLimit::Int(*n), p + 1)),
        AttrToken::Int(None) => Err(AttrError::IntTooLarge),
        _ => Err(AttrError::ExpectedInt),
    }
}

/// Parses the arguments of `#[budget_cpu_lt(..)]` or `#[budget_mem_lt(..)]`.
pub fn parse_budget_limit(tokens: &Vec<AttrToken>) -> (r: Result<BudgetLimit, AttrError>)
    ensures
        r == parse_limit_attr(tokens@),
{
    match parse_limit_from(tokens, 0) {
        Ok((l, q)) => {
            if q == tokens.len() {
                Ok(l)
            } else {
                Err(AttrError::UnexpectedToken)
            }
        },
        Err(e) => Err(e),
    }
}

/// Parses the arguments of `#[budget_lt(..)]`.
pub fn parse_budget_spec(tokens: &Vec<AttrToken>) -> (r: Result<BudgetSpec, AttrError>)
    ensures
        r == parse_spec_attr(tokens@),
{
    let ghost target = parse_spec_attr(tokens@);
    let mut acc = BudgetSpec { cpu: None, mem: None, env_ident: None };
    let mut p: usize = 0;
    while p < tokens.len()
        invariant
            p <= tokens@.len(),
            target == parse_spec_attr(tokens@),
            parse_spec_from(tokens@, p as int, acc) == target,
        decreases tokens@.len() - p,
    {
        let name = match &tokens[p] {
            AttrToken::Ident(name) => name,
            _ => return Err(AttrError::ExpectedIdent),
        };
        let eq_next = p + 1 < tokens.len() && match &tokens[p + 1] {
            AttrToken::Punct(c) => *c == '=',
            _ => false,
        };
        if !eq_next {
            return Err(AttrError::ExpectedEquals);
        }
        let q: usize;
        if str_eq(name.as_str(), "env_ident") {
            if p + 2 >= tokens.len() {
                return Err(AttrError::ExpectedIdent);
            }
            match &tokens[p + 2] {
                AttrToken::Ident(id) => {
                    acc = BudgetSpec { env_ident: Some(id.clone()), ..acc };
                },
                _ => return Err(AttrError::ExpectedIdent),
            }
            q = p + 3;
        } else if str_eq(name.as_str(), "cpu") {
            match parse_limit_from(tokens, p + 2) {
                Ok((l, next)) => {
                    acc = BudgetSpec { cpu: Some(l), ..acc };
                    q = next;
                },
                Err(e) => return Err(e),
            }
        } else if str_eq(name.as_str(), "mem") {
            match parse_limit_from(tokens, p + 2) {
                Ok((l, next)) => {
                    acc = BudgetSpec { mem: Some(l), ..acc };
                    q = next;
                },
                Err(e) => return Err(e),
            }
        } else {
            return Err(AttrError::UnknownProperty(name.clone()));
        }
        if q < tokens.len() {
            let comma = match &tokens[q] {
                AttrToken::Punct(c) => *c == ',',
                _ => false,
            };
            if !comma {
                return Err(AttrError::ExpectedComma);
            }
            p = q + 1;
        } else {
            p = q;
        }
    }
    if acc.cpu.is_none() && acc.mem.is_none() {
        Err(AttrError::MissingLimit)
    } else {
        Ok(acc)
    }
}

} // verus!

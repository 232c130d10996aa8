//! The parser: a token sequence to one rooted expression.
//!
//! Tokens are consumed from the end of a reversed token vector, treated as a
//! stack. A form must open with a left parenthesis; a right parenthesis closes
//! the current list; exhausting the tokens closes every open list. A quote
//! marker rewrites the next token or nested form into an explicit
//! `(quote X)` list during parsing; a quote marker with nothing after it is
//! dropped.

use vstd::prelude::*;
use vstd::string::StringExecFns;

use crate::lexer::lex;
use crate::lexer::lex_spec;
use crate::lexer::tokens_view;
use crate::lexer::Token;
use crate::lexer::TokenV;
use crate::objects::objs_view;
use crate::objects::Object;
use crate::objects::ObjV;

verus! {

/// The two-element list `(quote X)`.
pub open spec fn quoted(o: ObjV) -> ObjV {
    ObjV::List(seq![ObjV::Symbol("quote"@), o])
}

/// What parsing one form from the token stack yields: the form and the tokens
/// left below it, or a failure.
pub open spec fn spec_parse(toks: Seq<TokenV>) -> Result<(ObjV, Seq<TokenV>), ()>
    decreases toks.len(), 0int,
{
    if toks.len() == 0 || !(toks.last() is LParen) {
        Err(())
    } else {
        spec_parse_items(toks.drop_last(), Seq::empty())
    }
}

/// Collects list elements from the token stack until a right parenthesis or
/// the end of the tokens. The guards on the nested results only restate that
/// a sub-parse consumes tokens; they never fail.
pub open spec fn spec_parse_items(toks: Seq<TokenV>, acc: Seq<ObjV>) -> Result<
    (ObjV, Seq<TokenV>),
    (),
>
    decreases toks.len(), 1int,
{
    if toks.len() == 0 {
        Ok((ObjV::List(acc), toks))
    } else {
        let rest = toks.drop_last();
        match toks.last() {
            TokenV::Integer(n) => spec_parse_items(rest, acc.push(ObjV::Integer(n))),
            TokenV::Symbol(s) => spec_parse_items(rest, acc.push(ObjV::Symbol(s))),
            TokenV::RParen => Ok((ObjV::List(acc), rest)),
            TokenV::LParen => match spec_parse(toks) {
                Ok(p) => if p.1.len() < toks.len() {
                    spec_parse_items(p.1, acc.push(p.0))
                } else {
                    Err(())
                },
                Err(e) => Err(e),
            },
            TokenV::Quote => {
                if rest.len() == 0 {
                    spec_parse_items(rest, acc)
                } else {
                    match rest.last() {
                        TokenV::Integer(n) => spec_parse_items(
                            rest.drop_last(),
                            acc.push(quoted(ObjV::Integer(n))),
                        ),
                        TokenV::Symbol(s) => spec_parse_items(
                            rest.drop_last(),
                            acc.push(quoted(ObjV::Symbol(s))),
                        ),
                        TokenV::LParen => match spec_parse(rest) {
                            Ok(p) => if p.1.len() < rest.len() {
                                spec_parse_items(p.1, acc.push(quoted(p.0)))
                            } else {
                                Err(())
                            },
                            Err(e) => Err(e),
                        },
                        _ => Err(()),
                    }
                }
            },
        }
    }
}

/// What parsing a whole source text yields.
pub open spec fn spec_parse_program(s: Seq<char>) -> Result<ObjV, ()> {
    match spec_parse(lex_spec(s).reverse()) {
        Ok(p) => Ok(p.0),
        Err(e) => Err(e),
    }
}

/// How an executable parse result relates to the ghost parser: same verdict,
/// same form, same remaining tokens.
pub open spec fn parse_result_matches(
    r: Result<Object, String>,
    toks0: Seq<TokenV>,
    toks1: Seq<TokenV>,
) -> bool {
    match r {
        Ok(o) => spec_parse(toks0) == Ok::<(ObjV, Seq<TokenV>), ()>((o@, toks1)),
        Err(_) => spec_parse(toks0) is Err,
    }
}

/// Builds the two-element list `(quote X)` around an expression.
fn quote_wrap(o: Object) -> (r: Object)
    ensures
        r@ == quoted(o@),
{
    let ghost ov = o@;
    let qs = Object::Symbol(String::from_str("quote"));
    let ghost qsv = qs@;
    proof {
        assert(qsv == ObjV::Symbol("quote"@));
    }
    let mut q: Vec<Object> = Vec::new();
    q.push(qs);
    q.push(o);
    let r = Object::List(q);
    proof {
        assert(q@[0]@ == qsv);
        assert(q@[1]@ == ov);
        assert(r@->List_0 =~~= seq![ObjV::Symbol("quote"@), ov]);
        assert(r@ =~~= quoted(ov));
    }
    r
}

/// Parses one parenthesized form off the reversed token stack, exactly as
/// [`spec_parse`] describes.
#[verifier::loop_isolation(false)]
pub fn parse(tokens: &mut Vec<Token>) -> (r: Result<Object, String>)
    ensures
        parse_result_matches(r, tokens_view(old(tokens)@), tokens_view(final (tokens)@)),
        final (tokens)@.len() <= old(tokens)@.len(),
        r is Ok ==> final (tokens)@.len() < old(tokens)@.len(),
    decreases tokens@.len(),
{
    let ghost toks0 = tokens_view(old(tokens)@);
    let token = tokens.pop();
    let opened = match &token {
        Some(Token::LParen) => true,
        _ => false,
    };
    if !opened {
        proof {
            if toks0.len() > 0 {
                assert(toks0.last() == old(tokens)@.last()@);
            }
        }
        return Err(String::from_str("expected a left parenthesis"));
    }
    proof {
        assert(toks0.last() == old(tokens)@.last()@);
        assert(tokens_view(tokens@) =~= toks0.drop_last());
    }
    let mut list: Vec<Object> = Vec::new();
    proof {
        assert(objs_view(list@) =~= Seq::<ObjV>::empty());
    }
    loop
        invariant
            tokens@.len() < old(tokens)@.len(),
            spec_parse(toks0) == spec_parse_items(tokens_view(tokens@), objs_view(list@)),
        decreases tokens@.len(),
    {
        let ghost toks = tokens_view(tokens@);
        let ghost acc = objs_view(list@);
        let t = tokens.pop();
        proof {
            if toks.len() > 0 {
                assert(toks.last() == t->Some_0@);
                assert(tokens_view(tokens@) =~= toks.drop_last());
            }
        }
        match t {
            None => {
                let out = Object::List(list);
                proof {
                    assert(toks =~= Seq::<TokenV>::empty());
                    assert(out@->List_0 =~~= acc);
                    assert(out@ =~~= ObjV::List(acc));
                    assert(tokens_view(tokens@) =~= toks);
                }
                return Ok(out);
            },
            Some(Token::Integer(n)) => {
                list.push(Object::Integer(n));
                proof {
                    assert(objs_view(list@) =~= acc.push(ObjV::Integer(n as int)));
                }
            },
            Some(Token::Symbol(sym)) => {
                let ghost sv = sym@;
                list.push(Object::Symbol(sym));
                proof {
                    assert(objs_view(list@) =~= acc.push(ObjV::Symbol(sv)));
                }
            },
            Some(Token::LParen) => {
                tokens.push(Token::LParen);
                proof {
                    assert(tokens_view(tokens@) =~= toks);
                }
                let sub = match parse(tokens) {
                    Ok(o) => o,
                    Err(e) => {
                        return Err(e);
                    },
                };
                list.push(sub);
                proof {
                    assert(objs_view(list@) =~= acc.push(sub@));
                }
            },
            Some(Token::RParen) => {
                let out = Object::List(list);
                proof {
                    assert(out@->List_0 =~~= acc);
                    assert(out@ =~~= ObjV::List(acc));
                }
                return Ok(out);
            },
            Some(Token::Quote) => {
                let ghost rest = tokens_view(tokens@);
                let next = tokens.pop();
                proof {
                    if rest.len() > 0 {
                        assert(rest.last() == next->Some_0@);
                        assert(tokens_view(tokens@) =~= rest.drop_last());
                    } else {
                        assert(rest =~= Seq::<TokenV>::empty());
                    }
                }
                match next {
                    None => {},
                    Some(Token::Integer(n)) => {
                        let qo = quote_wrap(Object::Integer(n));
                        list.push(qo);
                        proof {
                            assert(objs_view(list@) =~= acc.push(quoted(ObjV::Integer(n as int))));
                        }
                    },
                    Some(Token::Symbol(sym)) => {
                        let ghost sv = sym@;
                        let qo = quote_wrap(Object::Symbol(sym));
                        list.push(qo);
                        proof {
                            assert(objs_view(list@) =~= acc.push(quoted(ObjV::Symbol(sv))));
                        }
                    },
                    Some(Token::LParen) => {
                        tokens.push(Token::LParen);
                        proof {
                            assert(tokens_view(tokens@) =~= rest);
                        }
                        let sub = match parse(tokens) {
                            Ok(o) => o,
                            Err(e) => {
                                return Err(e);
                            },
                        };
                        let qo = quote_wrap(sub);
                        list.push(qo);
                        proof {
                            assert(objs_view(list@) =~= acc.push(qo@));
                        }
                    },
                    Some(Token::RParen) => {
                        return Err(String::from_str("invalid quote"));
                    },
                    Some(Token::Quote) => {
                        return Err(String::from_str("invalid quote"));
                    },
                }
            },
        }
    }
}

/// Parses a whole source text: tokenize, then parse one root form off the
/// reversed token stack.
#[verifier::loop_isolation(false)]
pub fn parse_program(program: &str) -> (r: Result<Object, String>)
    ensures
        match r {
            Ok(o) => spec_parse_program(program@) == Ok::<ObjV, ()>(o@),
            Err(_) => spec_parse_program(program@) is Err,
        },
{
    let mut ts = lex(program);
    let ghost orig = tokens_view(ts@);
    let mut rev: Vec<Token> = Vec::new();
    proof {
        assert(tokens_view(ts@) + tokens_view(rev@).reverse() =~= orig);
    }
    while ts.len() > 0
        invariant
            tokens_view(ts@) + tokens_view(rev@).reverse() == orig,
        decreases ts@.len(),
    {
        let ghost tsv = tokens_view(ts@);
        let ghost rv = tokens_view(rev@);
        let t = ts.pop().unwrap();
        rev.push(t);
        proof {
            assert(tokens_view(ts@) =~= tsv.drop_last());
            assert(tokens_view(rev@) =~= rv.push(tsv.last()));
            assert(tokens_view(ts@) + tokens_view(rev@).reverse() =~= orig);
        }
    }
    proof {
        assert(tokens_view(rev@).reverse() =~= orig);
        assert(tokens_view(rev@) =~= orig.reverse());
    }
    match parse(&mut rev) {
        Ok(o) => Ok(o),
        Err(e) => Err(e),
    }
}

} // verus!

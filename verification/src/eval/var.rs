//! The flat variable environment: assignment overwrites, lookup fails with
//! a named error when the variable was never assigned.

use vstd::prelude::*;

use vstd::string::StringSliceAdditionalSpecFns;

use crate::ast::Expr;
use crate::ast::ExprV;
use crate::errors::Errors;
use crate::eval::Eval;
use crate::eval::Name;
use crate::eval::StV;
use crate::eval::Value;
use crate::eval::ValueV;
use crate::eval::env_view;
use crate::eval::rerr;
use crate::lexer::Pos;
use crate::lexer::to_vec_of;
use crate::text::bytes_eq;

verus! {

/// Finds the value last bound to `key`.
fn env_lookup(ctx: &Vec<(Vec<u8>, Value)>, key: &[u8]) -> (r: Option<Value>)
    ensures
        match r {
            Some(v) => env_view(ctx@).dom().contains(key@) && v.v() == env_view(ctx@)[key@],
            None => !env_view(ctx@).dom().contains(key@),
        },
{
    let mut i: usize = ctx.len();
    proof {
        assert(ctx@.take(ctx@.len() as int) =~= ctx@);
    }
    while i > 0
        invariant
            i <= ctx@.len(),
            env_view(ctx@).dom().contains(key@) == env_view(ctx@.take(i as int)).dom().contains(
                key@,
            ),
            env_view(ctx@).dom().contains(key@) ==> env_view(ctx@)[key@] == env_view(
                ctx@.take(i as int),
            )[key@],
        decreases i,
    {
        proof {
            assert(ctx@.take(i as int).drop_last() =~= ctx@.take(i - 1));
            assert(ctx@.take(i as int).last() == ctx@[i - 1]);
        }
        if bytes_eq(ctx[i - 1].0.as_slice(), key) {
            let v = ctx[i - 1].1.dup();
            return Some(v);
        }
        i -= 1;
    }
    proof {
        assert(ctx@.take(0) =~= Seq::<(Vec<u8>, Value)>::empty());
    }
    None
}

impl Eval {
    /// Assignment: evaluates the right side, then unconditionally binds the
    /// name.
    pub fn asgn(&mut self, left: &Expr, right: &Expr, _line: usize) -> (r: Result<(), Errors>)
        requires
            old(self).wf(),
        ensures
            final(self).wf(),
            final(self).srcv() == old(self).srcv(),
            final(self).inputs_v() == old(self).inputs_v(),
            ({
                let er = crate::eval::spec_eval_expr(
                    right.v(),
                    old(self).stv(),
                    old(self).inputs_v(),
                    old(self).srcv(),
                );
                match er.res {
                    Err(e) => r is Err && r->Err_0@ == e && final(self).stv() == er.st,
                    Ok(v) => r is Ok && (match left.v() {
                        ExprV::Id(n, l, c) => final(self).stv() == (StV {
                            env: er.st.env.insert(n, v),
                            ..er.st
                        }),
                        _ => final(self).stv() == er.st,
                    }),
                }
            }),
    {
        let value = match self.eval_expr(right) {
            Ok(v) => v,
            Err(e) => {
                return Err(e);
            },
        };
        match left {
            Expr::Id(id, _location) => {
                let key = to_vec_of(id.as_slice());
                proof {
                    assert(self.context@.push((key, value)).drop_last() =~= self.context@);
                }
                self.context.push((key, value));
                Ok(())
            },
            _ => Ok(()),
        }
    }

    /// Lookup: the value the name is bound to, or a runtime error naming
    /// the variable.
    pub fn id(&mut self, name: &Name, location: Pos) -> (r: Result<Value, Errors>)
        requires
            old(self).wf(),
        ensures
            *final(self) == *old(self),
            final(self).wf(),
            ({
                let env = old(self).stv().env;
                match r {
                    Ok(v) => env.dom().contains(name.id@) && v.v() == env[name.id@],
                    Err(e) => !env.dom().contains(name.id@) && e@ == rerr(
                        ("VARIABLE ").spec_bytes() + name.id@ + (" NOT FOUND").spec_bytes(),
                        location.0 as int,
                        location.1 as int,
                        old(self).srcv(),
                    ),
                }
            }),
    {
        match env_lookup(&self.context, name.id.as_slice()) {
            Some(v) => Ok(v),
            None => {
                let mut msg = to_vec_of(("VARIABLE ").as_bytes());
                let mut mid = to_vec_of(name.id.as_slice());
                msg.append(&mut mid);
                let mut tail = to_vec_of((" NOT FOUND").as_bytes());
                msg.append(&mut tail);
                Err(self.runtime_error(msg, location))
            },
        }
    }
}

} // verus!

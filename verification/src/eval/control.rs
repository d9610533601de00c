//! Control transfers: the guard form, the single-line jump, and the
//! bounded range sub-run.

use vstd::prelude::*;

use vstd::string::StringSliceAdditionalSpecFns;

use crate::ast::Expr;
use crate::ast::Stmt;
use crate::ast::StmtV;
use crate::ast::prog_view;
use crate::errors::ErrV;
use crate::errors::Errors;
use crate::eval::ER;
use crate::eval::Eval;
use crate::eval::Value;
use crate::eval::ValueV;
use crate::eval::conv::spec_choice;
use crate::eval::rerr;
use crate::eval::sheight;
use crate::eval::spec_eval_expr;
use crate::eval::spec_run_range;
use crate::eval::spec_run_stmt;
use crate::lexer::Pos;
use crate::lexer::to_vec_of;

verus! {

impl Eval {
    /// The guard form: evaluates the condition, and runs the wrapped
    /// statement once exactly when it coerces true.
    #[verifier::rlimit(100)]
    #[verifier::spinoff_prover]
    #[verifier::loop_isolation(false)]
    pub fn switch(
        &mut self,
        stmt: &Stmt,
        cond: &Expr,
        line: usize,
        prog: &Vec<Stmt>,
        fuel: u32,
    ) -> (r: Result<(), Errors>)
        requires
            old(self).wf(),
        ensures
            final(self).wf(),
            final(self).srcv() == old(self).srcv(),
            final(self).inputs_v() == old(self).inputs_v(),
            ({
                let er = spec_run_stmt(
                    StmtV::Switch(Box::new(stmt.v()), cond.v(), line as int),
                    prog_view(prog@),
                    old(self).stv(),
                    old(self).inputs_v(),
                    old(self).srcv(),
                    fuel as nat,
                );
                final(self).stv() == er.st && (match r {
                    Ok(u) => er.res == Ok::<ValueV, ErrV>(ValueV::Nothing),
                    Err(e) => er.res == Err::<ValueV, ErrV>(e@),
                })
            }),
        decreases fuel, 1int, sheight(stmt.v()), 2int,
    {
        let c = match self.eval_expr(cond) {
            Ok(v) => v,
            Err(e) => {
                return Err(e);
            },
        };
        let go = match self.choice(&c) {
            Value::Choice(b) => b,
            _ => false,
        };
        if go {
            match self.run_stmt(stmt, prog, fuel) {
                Ok(_) => Ok(()),
                Err(e) => Err(e),
            }
        } else {
            Ok(())
        }
    }

    /// The range jump: runs the lines of a checked inclusive range as a
    /// sub-run, then control falls back here.
    #[verifier::rlimit(100)]
    #[verifier::spinoff_prover]
    #[verifier::loop_isolation(false)]
    pub fn run_from(
        &mut self,
        from: &Expr,
        to: &Expr,
        line: usize,
        prog: &Vec<Stmt>,
        fuel: u32,
    ) -> (r: Result<(), Errors>)
        requires
            old(self).wf(),
        ensures
            final(self).wf(),
            final(self).srcv() == old(self).srcv(),
            final(self).inputs_v() == old(self).inputs_v(),
            ({
                let er = spec_run_stmt(
                    StmtV::RunFrom(from.v(), to.v(), line as int),
                    prog_view(prog@),
                    old(self).stv(),
                    old(self).inputs_v(),
                    old(self).srcv(),
                    fuel as nat,
                );
                final(self).stv() == er.st && (match r {
                    Ok(u) => er.res == Ok::<ValueV, ErrV>(ValueV::Nothing),
                    Err(e) => er.res == Err::<ValueV, ErrV>(e@),
                })
            }),
        decreases fuel, 0int, 0int, 0int,
    {
        let va = match self.eval_expr(from) {
            Ok(v) => v,
            Err(e) => {
                return Err(e);
            },
        };
        let vb = match self.eval_expr(to) {
            Ok(v) => v,
            Err(e) => {
                return Err(e);
            },
        };
        let bad = Pos(line, 1);
        match (va, vb) {
            (Value::Int(x), Value::Int(y)) => {
                if 1 <= x && x <= y && y <= prog.len() as i128 {
                    if fuel == 0 {
                        Err(
                            self.runtime_error(
                                to_vec_of(("NESTED RUNS TOO DEEP").as_bytes()),
                                bad,
                            ),
                        )
                    } else {
                        let ghost st0 = self.stv();
                        let xo = x as usize;
                        let yo = y as usize;
                        let mut i: usize = xo;
                        let mut done = false;
                        while !done
                            invariant
                                xo <= i <= yo,
                                yo <= prog@.len(),
                                self.wf(),
                                self.srcv() == old(self).srcv(),
                                self.inputs_v() == old(self).inputs_v(),
                                spec_run_range(
                                    prog_view(prog@),
                                    xo as int,
                                    yo as int,
                                    st0,
                                    old(self).inputs_v(),
                                    old(self).srcv(),
                                    (fuel - 1) as nat,
                                ) == (if done {
                                    ER { st: self.stv(), res: Ok(ValueV::Nothing) }
                                } else {
                                    spec_run_range(
                                        prog_view(prog@),
                                        i as int,
                                        yo as int,
                                        self.stv(),
                                        old(self).inputs_v(),
                                        old(self).srcv(),
                                        (fuel - 1) as nat,
                                    )
                                }),
                            decreases (if done {
                                0int
                            } else {
                                yo + 1 - i
                            }),
                        {
                            let ghost st_pre = self.stv();
                            match self.run_stmt(&prog[i - 1], prog, fuel - 1) {
                                Ok(_) => {},
                                Err(e) => {
                                    return Err(e);
                                },
                            }
                            proof {
                                let pv = prog_view(prog@);
                                assert(pv[i - 1] == prog@[i - 1].v());
                                assert(spec_run_range(
                                    pv,
                                    i as int,
                                    yo as int,
                                    st_pre,
                                    old(self).inputs_v(),
                                    old(self).srcv(),
                                    (fuel - 1) as nat,
                                ) == spec_run_range(
                                    pv,
                                    i + 1,
                                    yo as int,
                                    self.stv(),
                                    old(self).inputs_v(),
                                    old(self).srcv(),
                                    (fuel - 1) as nat,
                                ));
                                if i == yo {
                                    assert(spec_run_range(
                                        pv,
                                        yo + 1,
                                        yo as int,
                                        self.stv(),
                                        old(self).inputs_v(),
                                        old(self).srcv(),
                                        (fuel - 1) as nat,
                                    ) == (ER { st: self.stv(), res: Ok(ValueV::Nothing) }));
                                }
                            }
                            if i == yo {
                                done = true;
                            } else {
                                i = i + 1;
                            }
                        }
                        Ok(())
                    }
                } else {
                    Err(
                        self.runtime_error(to_vec_of(("INVALID LINE RANGE").as_bytes()), bad),
                    )
                }
            },
            _ => Err(self.runtime_error(to_vec_of(("INVALID LINE RANGE").as_bytes()), bad)),
        }
    }

    /// The single-line jump: runs exactly the statement at the checked
    /// line, then control falls back here.
    #[verifier::rlimit(100)]
    #[verifier::spinoff_prover]
    #[verifier::loop_isolation(false)]
    pub fn run_at(&mut self, at: &Expr, line: usize, prog: &Vec<Stmt>, fuel: u32) -> (r: Result<
        (),
        Errors,
    >)
        requires
            old(self).wf(),
        ensures
            final(self).wf(),
            final(self).srcv() == old(self).srcv(),
            final(self).inputs_v() == old(self).inputs_v(),
            ({
                let er = spec_run_stmt(
                    StmtV::RunAt(at.v(), line as int),
                    prog_view(prog@),
                    old(self).stv(),
                    old(self).inputs_v(),
                    old(self).srcv(),
                    fuel as nat,
                );
                final(self).stv() == er.st && (match r {
                    Ok(u) => er.res == Ok::<ValueV, ErrV>(ValueV::Nothing),
                    Err(e) => er.res == Err::<ValueV, ErrV>(e@),
                })
            }),
        decreases fuel, 0int, 0int, 0int,
    {
        let v = match self.eval_expr(at) {
            Ok(v) => v,
            Err(e) => {
                return Err(e);
            },
        };
        let bad = Pos(line, 1);
        match v {
            Value::Int(n) => {
                if 1 <= n && n <= prog.len() as i128 {
                    if fuel == 0 {
                        Err(
                            self.runtime_error(
                                to_vec_of(("NESTED RUNS TOO DEEP").as_bytes()),
                                bad,
                            ),
                        )
                    } else {
                        let idx = (n - 1) as usize;
                        match self.run_stmt(&prog[idx], prog, fuel - 1) {
                            Ok(_) => Ok(()),
                            Err(e) => Err(e),
                        }
                    }
                } else {
                    Err(
                        self.runtime_error(to_vec_of(("INVALID LINE NUMBER").as_bytes()), bad),
                    )
                }
            },
            _ => Err(self.runtime_error(to_vec_of(("INVALID LINE NUMBER").as_bytes()), bad)),
        }
    }
}

} // verus!

//! The console collaborators, as data: output is collected into the byte
//! buffer one line-terminated write at a time, and reads take the next of
//! the supplied input lines, an exhausted input reading as empty text.

use vstd::prelude::*;

use crate::ast::Expr;
use crate::errors::Errors;
use crate::eval::Eval;
use crate::eval::StV;
use crate::eval::Value;
use crate::eval::ValueV;
use crate::eval::conv::spec_text;
use crate::lexer::Pos;
use crate::lexer::to_vec_of;

verus! {

impl Eval {
    /// Output: coerces the operand to text, appends one line terminator and
    /// writes it to the output buffer.
    pub fn write(&mut self, operand: &Expr, _line: usize) -> (r: Result<(), Errors>)
        requires
            old(self).wf(),
        ensures
            final(self).wf(),
            final(self).srcv() == old(self).srcv(),
            final(self).inputs_v() == old(self).inputs_v(),
            ({
                let er = crate::eval::spec_eval_expr(
                    operand.v(),
                    old(self).stv(),
                    old(self).inputs_v(),
                    old(self).srcv(),
                );
                match er.res {
                    Err(e) => r is Err && r->Err_0@ == e && final(self).stv() == er.st,
                    Ok(v) => r is Ok && final(self).stv() == (StV {
                        out: er.st.out + spec_text(v) + seq![10u8],
                        ..er.st
                    }),
                }
            }),
    {
        let ghost er = crate::eval::spec_eval_expr(
            operand.v(),
            old(self).stv(),
            old(self).inputs_v(),
            old(self).srcv(),
        );
        let value = match self.eval_expr(operand) {
            Ok(v) => v,
            Err(e) => {
                return Err(e);
            },
        };
        let formatted = match self.text(&value) {
            Value::Text(s) => s,
            _ => Vec::new(),
        };
        let mut line = formatted;
        line.push(10);
        let mut buf = line;
        self.out.append(&mut buf);
        proof {
            assert(self.out@ =~= er.st.out + spec_text(value.v()) + seq![10u8]);
            assert(self.stv() == (StV {
                out: er.st.out + spec_text(value.v()) + seq![10u8],
                ..er.st
            }));
        }
        Ok(())
    }

    /// Input: the next supplied line as text; an exhausted input reads as
    /// empty text.
    pub fn read(&mut self, _location: Pos) -> (r: Result<Value, Errors>)
        requires
            old(self).wf(),
        ensures
            final(self).wf(),
            final(self).srcv() == old(self).srcv(),
            final(self).inputs_v() == old(self).inputs_v(),
            ({
                let st = old(self).stv();
                let inputs = old(self).inputs_v();
                if 0 <= st.in_pos < inputs.len() {
                    r is Ok && r->Ok_0.v() == ValueV::Text(inputs[st.in_pos]) && final(self).stv() == (StV { in_pos: st.in_pos + 1, ..st })
                } else {
                    r is Ok && r->Ok_0.v() == ValueV::Text(Seq::empty()) && final(self).stv() == st
                }
            }),
    {
        if self.in_pos < self.inputs.len() {
            let v = to_vec_of(self.inputs[self.in_pos].as_slice());
            self.in_pos = self.in_pos + 1;
            Ok(Value::Text(v))
        } else {
            let empty: Vec<u8> = Vec::new();
            proof {
                assert(empty@ =~= Seq::<u8>::empty());
            }
            Ok(Value::Text(empty))
        }
    }
}

} // verus!

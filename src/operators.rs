//! Built-in operators on integers, dispatched by name.
use vstd::prelude::*;
use vstd::string::StrSliceExecFns;
use crate::heap::Value;
use crate::semantics::{Error, Operator, apply_int, operator_of};

verus! {

/// The operator that `name` denotes, if any.
pub fn parse_operator(name: &String) -> (r: Option<Operator>)
    ensures
        r == operator_of(name@),
{
    let s = name.as_str();
    let n = s.unicode_len();
    if n == 1 {
        let c = s.get_char(0);
        proof {
            assert(s@ =~= seq![c]);
        }
        if c == '+' {
            Some(Operator::Add)
        } else if c == '-' {
            Some(Operator::Sub)
        } else if c == '*' {
            Some(Operator::Mul)
        } else if c == '/' {
            Some(Operator::Div)
        } else if c == '%' {
            Some(Operator::Rem)
        } else if c == '|' {
            Some(Operator::Or)
        } else if c == '&' {
            Some(Operator::And)
        } else if c == '<' {
            Some(Operator::Lt)
        } else if c == '>' {
            Some(Operator::Gt)
        } else {
            None
        }
    } else if n == 2 {
        let c0 = s.get_char(0);
        let c1 = s.get_char(1);
        proof {
            assert(s@ =~= seq![c0, c1]);
        }
        if c1 != '=' {
            None
        } else if c0 == '=' {
            Some(Operator::Eq)
        } else if c0 == '!' {
            Some(Operator::Ne)
        } else if c0 == '<' {
            Some(Operator::Le)
        } else if c0 == '>' {
            Some(Operator::Ge)
        } else {
            None
        }
    } else {
        proof {
            assert(s@.len() != 1 && s@.len() != 2);
            assert(seq!['+'].len() == 1);
            assert(seq!['=', '='].len() == 2);
        }
        None
    }
}

fn int_value(a: i64) -> (r: Result<Value, Error>)
    ensures
        r == crate::semantics::int_result(a as int),
{
    if i32::MIN as i64 <= a && a <= i32::MAX as i64 {
        Ok(Value::Int(a as i32))
    } else {
        Err(Error::Overflow)
    }
}

fn magnitude(a: i32) -> (r: u64)
    ensures
        r as int == crate::semantics::abs(a as int),
        r <= 0x8000_0000,
{
    if a < 0 {
        (-(a as i64)) as u64
    } else {
        a as u64
    }
}

/// Applies `op` to two integers: arithmetic rounds toward zero and fails
/// on overflow or division by zero; comparisons give booleans.
pub fn apply_operator(op: Operator, l: i32, r: i32) -> (res: Result<Value, Error>)
    ensures
        res == apply_int(op, l, r),
{
    match op {
        Operator::Add => int_value(l as i64 + r as i64),
        Operator::Sub => int_value(l as i64 - r as i64),
        Operator::Mul => {
            let a = l as i64;
            let b = r as i64;
            assert(-0x4000_0000_0000_0000 <= a * b <= 0x4000_0000_0000_0000) by (nonlinear_arith)
                requires
                    -0x8000_0000 <= a <= 0x8000_0000,
                    -0x8000_0000 <= b <= 0x8000_0000,
            ;
            int_value(a * b)
        },
        Operator::Div => {
            if r == 0 {
                return Err(Error::DivisionByZero);
            }
            let al = magnitude(l);
            let ar = magnitude(r);
            let q = al / ar;
            assert(q <= al) by (nonlinear_arith)
                requires
                    ar >= 1,
                    q == al / ar,
            ;
            if (l < 0) == (r < 0) {
                int_value(q as i64)
            } else {
                int_value(-(q as i64))
            }
        },
        Operator::Rem => {
            if r == 0 {
                return Err(Error::DivisionByZero);
            }
            if l == i32::MIN && r == -1 {
                return Err(Error::Overflow);
            }
            let al = magnitude(l);
            let ar = magnitude(r);
            let m = al % ar;
            if l < 0 {
                Ok(Value::Int(-(m as i64) as i32))
            } else {
                Ok(Value::Int(m as i32))
            }
        },
        Operator::Or => Ok(Value::Boolean(l != 0 || r != 0)),
        Operator::And => Ok(Value::Boolean(l != 0 && r != 0)),
        Operator::Eq => Ok(Value::Boolean(l == r)),
        Operator::Ne => Ok(Value::Boolean(l != r)),
        Operator::Lt => Ok(Value::Boolean(l < r)),
        Operator::Gt => Ok(Value::Boolean(l > r)),
        Operator::Le => Ok(Value::Boolean(l <= r)),
        Operator::Ge => Ok(Value::Boolean(l >= r)),
    }
}

} // verus!

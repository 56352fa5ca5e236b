//! Diagnostic rows.
//!
//! A recoverable failure of one call becomes one error row
//! `{source_locator, message}` appended to the caller-owned sink. The message
//! renders the function and its resolved argument values; numbers appear as
//! their IEEE-754 bit patterns in decimal, since this layer never interprets
//! them.

use vstd::prelude::*;
use vstd::string::StringExecFns;

use crate::value::row_model;
use crate::value::Scalar;
use crate::value::ScalarModel;
use crate::value::Value;
use crate::value::ValueModel;

verus! {

/// The character of one decimal digit.
pub open spec fn dec_digit(d: nat) -> char {
    if d == 0 {
        '0'
    } else if d == 1 {
        '1'
    } else if d == 2 {
        '2'
    } else if d == 3 {
        '3'
    } else if d == 4 {
        '4'
    } else if d == 5 {
        '5'
    } else if d == 6 {
        '6'
    } else if d == 7 {
        '7'
    } else if d == 8 {
        '8'
    } else {
        '9'
    }
}

/// The decimal digits of `n`, most significant first.
pub open spec fn dec_repr(n: nat) -> Seq<char>
    decreases n,
{
    if n < 10 {
        seq![dec_digit(n)]
    } else {
        dec_repr(n / 10).push(dec_digit(n % 10))
    }
}

/// The rendering of one column entry.
pub open spec fn scalar_repr(s: ScalarModel) -> Seq<char> {
    match s {
        ScalarModel::Text(t) => "Text(\""@ + t + "\")"@,
        ScalarModel::Float(bits) => "Float("@ + dec_repr(bits as nat) + ")"@,
    }
}

/// The given pieces joined with a comma and a space between neighbours.
pub open spec fn join_comma(parts: Seq<Seq<char>>) -> Seq<char>
    decreases parts.len(),
{
    if parts.len() == 0 {
        Seq::empty()
    } else if parts.len() == 1 {
        parts[0]
    } else {
        parts[0] + ", "@ + join_comma(parts.drop_first())
    }
}

/// The rendering of one tagged value.
pub open spec fn value_repr(v: ValueModel) -> Seq<char> {
    match v {
        ValueModel::Text(t) => "Text(\""@ + t + "\")"@,
        ValueModel::Float(bits) => "Float("@ + dec_repr(bits as nat) + ")"@,
        ValueModel::Column(entries) => "Column(["@ + join_comma(
            entries.map_values(|e: ScalarModel| scalar_repr(e)),
        ) + "])"@,
    }
}

/// The rendering of a resolved argument list.
pub open spec fn args_repr(args: Seq<ValueModel>) -> Seq<char> {
    "["@ + join_comma(args.map_values(|v: ValueModel| value_repr(v))) + "]"@
}

/// The message of one type-error row: the function, rendered as its
/// registered name, and the resolved argument values.
pub open spec fn type_error_message(fname: Seq<char>, args: Seq<ValueModel>) -> Seq<char> {
    "Type error while calling: "@ + fname + " "@ + args_repr(args)
}

/// One type-error row: the source locator, kept verbatim, then the message.
pub open spec fn type_error_row_model(
    source: Seq<char>,
    fname: Seq<char>,
    args: Seq<ValueModel>,
) -> Seq<ValueModel> {
    seq![ValueModel::Text(source), ValueModel::Text(type_error_message(fname, args))]
}

/// Joining one more piece appends it after a comma, or is it alone.
proof fn lemma_join_comma_snoc(parts: Seq<Seq<char>>, p: Seq<char>)
    ensures
        parts.len() == 0 ==> join_comma(parts.push(p)) == p,
        parts.len() > 0 ==> join_comma(parts.push(p)) == join_comma(parts) + ", "@ + p,
    decreases parts.len(),
{
    if parts.len() == 0 {
        assert(parts.push(p)[0] == p);
    } else {
        assert(parts.push(p).drop_first() =~= parts.drop_first().push(p));
        lemma_join_comma_snoc(parts.drop_first(), p);
        if parts.len() == 1 {
            assert(parts.push(p)[0] == parts[0]);
        }
    }
}

/// Appends one decimal digit.
fn push_digit(d: u64, out: &mut String)
    requires
        d < 10,
    ensures
        final(out)@ == old(out)@ + seq![dec_digit(d as nat)],
{
    if d == 0 {
        out.append("0");
        proof {
            reveal_strlit("0");
            assert(out@ =~= old(out)@ + seq![dec_digit(d as nat)]);
        }
    } else if d == 1 {
        out.append("1");
        proof {
            reveal_strlit("1");
            assert(out@ =~= old(out)@ + seq![dec_digit(d as nat)]);
        }
    } else if d == 2 {
        out.append("2");
        proof {
            reveal_strlit("2");
            assert(out@ =~= old(out)@ + seq![dec_digit(d as nat)]);
        }
    } else if d == 3 {
        out.append("3");
        proof {
            reveal_strlit("3");
            assert(out@ =~= old(out)@ + seq![dec_digit(d as nat)]);
        }
    } else if d == 4 {
        out.append("4");
        proof {
            reveal_strlit("4");
            assert(out@ =~= old(out)@ + seq![dec_digit(d as nat)]);
        }
    } else if d == 5 {
        out.append("5");
        proof {
            reveal_strlit("5");
            assert(out@ =~= old(out)@ + seq![dec_digit(d as nat)]);
        }
    } else if d == 6 {
        out.append("6");
        proof {
            reveal_strlit("6");
            assert(out@ =~= old(out)@ + seq![dec_digit(d as nat)]);
        }
    } else if d == 7 {
        out.append("7");
        proof {
            reveal_strlit("7");
            assert(out@ =~= old(out)@ + seq![dec_digit(d as nat)]);
        }
    } else if d == 8 {
        out.append("8");
        proof {
            reveal_strlit("8");
            assert(out@ =~= old(out)@ + seq![dec_digit(d as nat)]);
        }
    } else {
        out.append("9");
        proof {
            reveal_strlit("9");
            assert(out@ =~= old(out)@ + seq![dec_digit(d as nat)]);
        }
    }
}

/// Appends the decimal digits of `n`, most significant first.
fn push_dec(n: u64, out: &mut String)
    ensures
        final(out)@ == old(out)@ + dec_repr(n as nat),
    decreases n,
{
    if n >= 10 {
        push_dec(n / 10, out);
    }
    push_digit(n % 10, out);
    proof {
        if n >= 10 {
            assert(out@ =~= old(out)@ + dec_repr(n as nat));
        } else {
            assert(out@ =~= old(out)@ + dec_repr(n as nat));
        }
    }
}

/// Appends the rendering of one column entry.
fn push_scalar_repr(s: &Scalar, out: &mut String)
    ensures
        final(out)@ == old(out)@ + scalar_repr(s@),
{
    match s {
        Scalar::Text(t) => {
            out.append("Text(\"");
            out.append(t.as_str());
            out.append("\")");
            proof {
                assert(out@ =~= old(out)@ + scalar_repr(s@));
            }
        },
        Scalar::Float(bits) => {
            out.append("Float(");
            push_dec(*bits, out);
            out.append(")");
            proof {
                assert(out@ =~= old(out)@ + scalar_repr(s@));
            }
        },
    }
}

/// Appends the rendering of one tagged value.
#[verifier::loop_isolation(false)]
fn push_value_repr(v: &Value, out: &mut String)
    ensures
        final(out)@ == old(out)@ + value_repr(v@),
{
    match v {
        Value::Text(t) => {
            out.append("Text(\"");
            out.append(t.as_str());
            out.append("\")");
            proof {
                assert(out@ =~= old(out)@ + value_repr(v@));
            }
        },
        Value::Float(bits) => {
            out.append("Float(");
            push_dec(*bits, out);
            out.append(")");
            proof {
                assert(out@ =~= old(out)@ + value_repr(v@));
            }
        },
        Value::Column(entries) => {
            let ghost reprs = entries@.map_values(|e: Scalar| e@).map_values(
                |e: ScalarModel| scalar_repr(e),
            );
            out.append("Column([");
            let mut i: usize = 0;
            while i < entries.len()
                invariant
                    i <= entries.len(),
                    out@ == old(out)@ + "Column(["@ + join_comma(reprs.take(i as int)),
                decreases entries.len() - i,
            {
                if i > 0 {
                    out.append(", ");
                }
                push_scalar_repr(&entries[i], out);
                proof {
                    assert(reprs.take(i + 1) =~= reprs.take(i as int).push(
                        scalar_repr(entries@[i as int]@),
                    ));
                    lemma_join_comma_snoc(reprs.take(i as int), scalar_repr(entries@[i as int]@));
                    assert(out@ =~= old(out)@ + "Column(["@ + join_comma(reprs.take(i + 1)));
                }
                i = i + 1;
            }
            out.append("])");
            proof {
                assert(reprs.take(entries@.len() as int) =~= reprs);
                assert(out@ =~= old(out)@ + value_repr(v@));
            }
        },
    }
}

/// Appends the rendering of a resolved argument list.
#[verifier::loop_isolation(false)]
fn push_args_repr(args: &Vec<Value>, out: &mut String)
    ensures
        final(out)@ == old(out)@ + args_repr(row_model(args@)),
{
    let ghost reprs = row_model(args@).map_values(|v: ValueModel| value_repr(v));
    out.append("[");
    let mut i: usize = 0;
    while i < args.len()
        invariant
            i <= args.len(),
            out@ == old(out)@ + "["@ + join_comma(reprs.take(i as int)),
        decreases args.len() - i,
    {
        if i > 0 {
            out.append(", ");
        }
        push_value_repr(&args[i], out);
        proof {
            assert(reprs.take(i + 1) =~= reprs.take(i as int).push(value_repr(args@[i as int]@)));
            lemma_join_comma_snoc(reprs.take(i as int), value_repr(args@[i as int]@));
            assert(out@ =~= old(out)@ + "["@ + join_comma(reprs.take(i + 1)));
        }
        i = i + 1;
    }
    out.append("]");
    proof {
        assert(reprs.take(args@.len() as int) =~= reprs);
        assert(out@ =~= old(out)@ + args_repr(row_model(args@)));
    }
}

/// Builds one type-error row for a call of the function registered as
/// `fname`, whose resolved arguments were `args`, raised at `source`.
pub fn type_error_row(source: &str, fname: &str, args: &Vec<Value>) -> (row: Vec<Value>)
    ensures
        row_model(row@) == type_error_row_model(source@, fname@, row_model(args@)),
{
    let mut msg: String = "Type error while calling: ".to_owned();
    msg.append(fname);
    msg.append(" ");
    push_args_repr(args, &mut msg);
    proof {
        assert(msg@ =~= type_error_message(fname@, row_model(args@)));
    }
    let mut row: Vec<Value> = Vec::new();
    row.push(Value::Text(source.to_owned()));
    row.push(Value::Text(msg));
    proof {
        assert(row_model(row@) =~= type_error_row_model(
            source@,
            fname@,
            row_model(args@),
        ));
    }
    row
}

} // verus!

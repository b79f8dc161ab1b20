use vstd::prelude::*;
use crate::value::{Value, ValueView, value_view};
use crate::value::display::value_text;
use crate::value::typecast::res_view;
use crate::value::utils::{OprError, OprErrorView};

verus! {

/// What `..` gives: the two values shown one after the other.
pub open spec fn concat_spec(x: ValueView, y: ValueView) -> Result<ValueView, OprErrorView> {
    Ok(ValueView::Str(value_text(x) + value_text(y)))
}

/// Joins two values as text (see `concat_spec`).
pub fn concat(x: &Value, y: Value) -> (res: Result<Value, OprError>)
    ensures
        res_view(res) == concat_spec(value_view(*x), value_view(y)),
{
    let mut s = x.to_text();
    let t = y.to_text();
    s.append(t.as_str());
    Ok(Value::Str(s))
}

} // verus!

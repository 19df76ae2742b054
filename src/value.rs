use vstd::prelude::*;
use vstd::string::StrSliceExecFns;
use vstd::string::StringExecFns;

verus! {

/// The smallest integer that a JSON number of this library can hold.
pub const INT_MIN: i128 = -9223372036854775808;

/// The largest integer that a JSON number of this library can hold.
pub const INT_MAX: i128 = 18446744073709551615;

/// The mathematical model of a JSON value.
pub enum Json {
    Null,
    Bool(bool),
    Int(int),
    Float(Seq<char>),
    Str(Seq<char>),
    Array(Seq<Json>),
    /// The keys, in order, and the value under each.
    Object(Seq<Seq<char>>, Seq<Json>),
}

/// A JSON value. Objects keep their keys in insertion order.
pub enum Value {
    Null,
    Bool(bool),
    /// An integral number.
    Int(i128),
    /// A non-integral number, held as its decimal text.
    Float(String),
    Str(String),
    Array(Vec<Value>),
    Object(Vec<(String, Value)>),
}

impl View for Value {
    type V = Json;

    open spec fn view(&self) -> Json
        decreases self,
    {
        match self {
            Value::Null => Json::Null,
            Value::Bool(b) => Json::Bool(*b),
            Value::Int(n) => Json::Int(*n as int),
            Value::Float(t) => Json::Float(t@),
            Value::Str(s) => Json::Str(s@),
            Value::Array(a) => Json::Array(
                Seq::new(a.len() as nat, |i: int| if 0 <= i < a.len() { a[i]@ } else { Json::Null }),
            ),
            Value::Object(m) => Json::Object(
                Seq::new(m.len() as nat, |i: int| if 0 <= i < m.len() { m[i].0@ } else { Seq::empty() }),
                Seq::new(m.len() as nat, |i: int| if 0 <= i < m.len() { m[i].1@ } else { Json::Null }),
            ),
        }
    }
}

/// The model of a sequence of values.
pub open spec fn views(a: Seq<Value>) -> Seq<Json> {
    Seq::new(a.len(), |i: int| a[i]@)
}

/// The keys of a sequence of entries.
pub open spec fn key_views(m: Seq<(String, Value)>) -> Seq<Seq<char>> {
    Seq::new(m.len(), |i: int| m[i].0@)
}

/// The values of a sequence of entries.
pub open spec fn value_views(m: Seq<(String, Value)>) -> Seq<Json> {
    Seq::new(m.len(), |i: int| m[i].1@)
}

pub proof fn lemma_array_view(a: Vec<Value>)
    ensures
        Value::Array(a)@ == Json::Array(views(a@)),
{
    let v = Value::Array(a);
    let s = Seq::new(a.len() as nat, |i: int| if 0 <= i < a.len() { a[i]@ } else { Json::Null });
    assert(v@->Array_0 =~= views(a@));
}

pub proof fn lemma_object_view(m: Vec<(String, Value)>)
    ensures
        Value::Object(m)@ == Json::Object(key_views(m@), value_views(m@)),
{
    let v = Value::Object(m);
    assert(v@->Object_0 =~= key_views(m@));
    assert(v@->Object_1 =~= value_views(m@));
}

/// A number that the library can represent as an integer.
pub open spec fn int_in_range(n: int) -> bool {
    INT_MIN <= n <= INT_MAX
}

/// JSON truthiness: `null`, `false`, zero, the empty string and the empty
/// array are falsy; everything else is truthy.
pub open spec fn truthy(j: Json) -> bool {
    match j {
        Json::Null => false,
        Json::Bool(b) => b,
        Json::Int(n) => n != 0,
        Json::Float(t) => !float_text_is_zero(t),
        Json::Str(s) => s.len() > 0,
        Json::Array(a) => a.len() > 0,
        Json::Object(..) => true,
    }
}

/// A decimal text whose digits are all zero.
pub open spec fn float_text_is_zero(t: Seq<char>) -> bool {
    forall|i: int| 0 <= i < t.len() ==> (t[i] == '0' || t[i] == '.' || t[i] == '-' || t[i] == '+')
}

pub open spec fn digit_char(d: int) -> char {
    if d == 0 {
        '0'
    } else if d == 1 {
        '1'
    } else if d == 2 {
        '2'
    } else if d == 3 {
        '3'
    } else if d == 4 {
        '4'
    } else if d == 5 {
        '5'
    } else if d == 6 {
        '6'
    } else if d == 7 {
        '7'
    } else if d == 8 {
        '8'
    } else {
        '9'
    }
}

/// The decimal digits of a natural number.
pub open spec fn nat_text(n: nat) -> Seq<char>
    decreases n,
{
    if n < 10 {
        seq![digit_char(n as int)]
    } else {
        nat_text(n / 10) + seq![digit_char((n % 10) as int)]
    }
}

/// The decimal text of an integer.
pub open spec fn int_text(n: int) -> Seq<char> {
    if n < 0 {
        seq!['-'] + nat_text((-n) as nat)
    } else {
        nat_text(n as nat)
    }
}

/// The canonical text of a scalar value; composites have none.
pub open spec fn text_of(j: Json) -> Option<Seq<char>> {
    match j {
        Json::Null => Some("null"@),
        Json::Bool(b) => Some(if b { "true"@ } else { "false"@ }),
        Json::Int(n) => Some(int_text(n)),
        Json::Float(t) => Some(t),
        Json::Str(s) => Some(s),
        _ => None,
    }
}

fn digit_str(d: u128) -> (r: &'static str)
    requires
        d < 10,
    ensures
        r@ == seq![digit_char(d as int)],
{
    proof {
        reveal_strlit("0");
        reveal_strlit("1");
        reveal_strlit("2");
        reveal_strlit("3");
        reveal_strlit("4");
        reveal_strlit("5");
        reveal_strlit("6");
        reveal_strlit("7");
        reveal_strlit("8");
        reveal_strlit("9");
    }
    if d == 0 {
        "0"
    } else if d == 1 {
        "1"
    } else if d == 2 {
        "2"
    } else if d == 3 {
        "3"
    } else if d == 4 {
        "4"
    } else if d == 5 {
        "5"
    } else if d == 6 {
        "6"
    } else if d == 7 {
        "7"
    } else if d == 8 {
        "8"
    } else {
        "9"
    }
}

fn nat_to_string(n: u128) -> (r: String)
    ensures
        r@ == nat_text(n as nat),
    decreases n,
{
    if n < 10 {
        String::from_str(digit_str(n))
    } else {
        let mut s = nat_to_string(n / 10);
        s.append(digit_str(n % 10));
        s
    }
}

/// Writes an integer in decimal.
pub fn int_to_string(n: i128) -> (r: String)
    ensures
        r@ == int_text(n as int),
{
    if n < 0 {
        let m: u128 = if n == i128::MIN {
            170141183460469231731687303715884105728u128
        } else {
            (-n) as u128
        };
        let digits = nat_to_string(m);
        proof {
            reveal_strlit("-");
        }
        String::from_str("-").concat(digits.as_str())
    } else {
        nat_to_string(n as u128)
    }
}

/// The canonical text of a scalar value, `None` for arrays and objects.
pub fn scalar_text(v: &Value) -> (r: Option<String>)
    ensures
        r matches Some(s) ==> text_of(v@) == Some(s@),
        r is None ==> text_of(v@) is None,
{
    match v {
        Value::Null => Some(String::from_str("null")),
        Value::Bool(b) => {
            if *b {
                Some(String::from_str("true"))
            } else {
                Some(String::from_str("false"))
            }
        },
        Value::Int(n) => Some(int_to_string(*n)),
        Value::Float(t) => Some(t.clone()),
        Value::Str(s) => Some(s.clone()),
        Value::Array(_) => None,
        Value::Object(_) => None,
    }
}

/// The characters of a string.
pub fn chars_of(s: &str) -> (r: Vec<char>)
    ensures
        r@ == s@,
{
    let n = s.unicode_len();
    let mut out: Vec<char> = Vec::new();
    let mut i: usize = 0;
    while i < n
        invariant
            n == s@.len(),
            i <= n,
            out@ == s@.subrange(0, i as int),
        decreases n - i,
    {
        out.push(s.get_char(i));
        i = i + 1;
        assert(out@ =~= s@.subrange(0, i as int));
    }
    assert(out@ =~= s@);
    out
}

/// Equality of two character sequences.
pub fn chars_eq(a: &Vec<char>, b: &Vec<char>) -> (r: bool)
    ensures
        r == (a@ == b@),
{
    if a.len() != b.len() {
        return false;
    }
    let mut i: usize = 0;
    while i < a.len()
        invariant
            a.len() == b.len(),
            i <= a.len(),
            a@.subrange(0, i as int) == b@.subrange(0, i as int),
        decreases a.len() - i,
    {
        if a[i] != b[i] {
            assert(a@[i as int] != b@[i as int]);
            return false;
        }
        i = i + 1;
        assert(a@.subrange(0, i as int) =~= a@.subrange(0, i - 1 as int).push(a@[i - 1]));
        assert(b@.subrange(0, i as int) =~= b@.subrange(0, i - 1 as int).push(b@[i - 1]));
    }
    assert(a@ =~= a@.subrange(0, i as int));
    assert(b@ =~= b@.subrange(0, i as int));
    true
}

/// Equality of two strings, by their characters.
pub fn str_eq(a: &str, b: &str) -> (r: bool)
    ensures
        r == (a@ == b@),
{
    let ca = chars_of(a);
    let cb = chars_of(b);
    chars_eq(&ca, &cb)
}


/// Equality of two values, by their models.
pub fn values_equal(a: &Value, b: &Value) -> (r: bool)
    ensures
        r == (a@ == b@),
    decreases a,
{
    match (a, b) {
        (Value::Null, Value::Null) => true,
        (Value::Bool(x), Value::Bool(y)) => *x == *y,
        (Value::Int(x), Value::Int(y)) => *x == *y,
        (Value::Float(x), Value::Float(y)) => *x == *y,
        (Value::Str(x), Value::Str(y)) => *x == *y,
        (Value::Array(x), Value::Array(y)) => {
            proof {
                lemma_array_view(*x);
                lemma_array_view(*y);
            }
            if x.len() != y.len() {
                assert(views(x@).len() != views(y@).len());
                return false;
            }
            let mut i: usize = 0;
            while i < x.len()
                invariant
                    *a == Value::Array(*x),
                    a@ == Json::Array(views(x@)),
                    b@ == Json::Array(views(y@)),
                    x.len() == y.len(),
                    i <= x.len(),
                    forall|k: int| 0 <= k < i ==> x@[k]@ == y@[k]@,
                decreases x.len() - i,
            {
                proof {
                    assert(decreases_to!(*a => a->Array_0));
                    assert(decreases_to!(a->Array_0 => a->Array_0[i as int]));
                }
                if !values_equal(&x[i], &y[i]) {
                    assert(views(x@)[i as int] != views(y@)[i as int]);
                    return false;
                }
                i = i + 1;
            }
            assert(views(x@) =~= views(y@));
            true
        },
        (Value::Object(x), Value::Object(y)) => {
            proof {
                lemma_object_view(*x);
                lemma_object_view(*y);
            }
            if x.len() != y.len() {
                assert(key_views(x@).len() != key_views(y@).len());
                return false;
            }
            let mut i: usize = 0;
            while i < x.len()
                invariant
                    *a == Value::Object(*x),
                    a@ == Json::Object(key_views(x@), value_views(x@)),
                    b@ == Json::Object(key_views(y@), value_views(y@)),
                    x.len() == y.len(),
                    i <= x.len(),
                    forall|k: int| 0 <= k < i ==> x@[k].0@ == y@[k].0@ && x@[k].1@ == y@[k].1@,
                decreases x.len() - i,
            {
                proof {
                    assert(decreases_to!(*a => a->Object_0));
                    assert(decreases_to!(a->Object_0 => a->Object_0[i as int]));
                    assert(decreases_to!(a->Object_0[i as int] => a->Object_0[i as int].1));
                }
                if x[i].0 != y[i].0 {
                    assert(key_views(x@)[i as int] != key_views(y@)[i as int]);
                    return false;
                }
                if !values_equal(&x[i].1, &y[i].1) {
                    assert(value_views(x@)[i as int] != value_views(y@)[i as int]);
                    return false;
                }
                i = i + 1;
            }
            assert(key_views(x@) =~= key_views(y@));
            assert(value_views(x@) =~= value_views(y@));
            true
        },
        _ => false,
    }
}

/// A copy of a sequence of entries.
pub fn clone_entries(m: &Vec<(String, Value)>) -> (r: Vec<(String, Value)>)
    ensures
        r.len() == m.len(),
        forall|k: int| 0 <= k < m.len() ==> (#[trigger] r@[k]).0@ == m@[k].0@ && r@[k].1@ == m@[k].1@,
        key_views(r@) == key_views(m@),
        value_views(r@) == value_views(m@),
{
    let mut out: Vec<(String, Value)> = Vec::new();
    let mut i: usize = 0;
    while i < m.len()
        invariant
            i <= m.len(),
            out.len() == i,
            forall|k: int| 0 <= k < i ==> (#[trigger] out@[k]).0@ == m@[k].0@ && out@[k].1@ == m@[k].1@,
        decreases m.len() - i,
    {
        let k = m[i].0.clone();
        let v = m[i].1.deep_clone();
        out.push((k, v));
        i = i + 1;
    }
    assert(key_views(out@) =~= key_views(m@));
    assert(value_views(out@) =~= value_views(m@));
    out
}

impl Value {
    /// A copy of the value.
    pub fn deep_clone(&self) -> (r: Value)
        ensures
            r@ == self@,
        decreases self,
    {
        match self {
            Value::Null => Value::Null,
            Value::Bool(b) => Value::Bool(*b),
            Value::Int(n) => Value::Int(*n),
            Value::Float(t) => Value::Float(t.clone()),
            Value::Str(s) => Value::Str(s.clone()),
            Value::Array(a) => {
                let mut out: Vec<Value> = Vec::new();
                let mut i: usize = 0;
                while i < a.len()
                    invariant
                        *self == Value::Array(*a),
                        i <= a.len(),
                        out.len() == i,
                        forall|j: int| 0 <= j < i ==> out@[j]@ == a@[j]@,
                    decreases a.len() - i,
                {
                    proof {
                        assert(decreases_to!(*self => self->Array_0));
                        assert(decreases_to!(self->Array_0 => self->Array_0[i as int]));
                    }
                    out.push(a[i].deep_clone());
                    i = i + 1;
                }
                proof {
                    lemma_array_view(out);
                    lemma_array_view(*a);
                    assert(views(out@) =~= views(a@));
                }
                Value::Array(out)
            },
            Value::Object(m) => {
                let mut out: Vec<(String, Value)> = Vec::new();
                let mut i: usize = 0;
                while i < m.len()
                    invariant
                        *self == Value::Object(*m),
                        i <= m.len(),
                        out.len() == i,
                        forall|j: int|
                            0 <= j < i ==> out@[j].0@ == m@[j].0@ && out@[j].1@ == m@[j].1@,
                    decreases m.len() - i,
                {
                    proof {
                        assert(decreases_to!(*self => self->Object_0));
                        assert(decreases_to!(self->Object_0 => self->Object_0[i as int]));
                        assert(decreases_to!(self->Object_0[i as int] => self->Object_0[i as int].1));
                    }
                    let k = m[i].0.clone();
                    let v = m[i].1.deep_clone();
                    out.push((k, v));
                    i = i + 1;
                }
                proof {
                    lemma_object_view(out);
                    lemma_object_view(*m);
                    assert(key_views(out@) =~= key_views(m@));
                    assert(value_views(out@) =~= value_views(m@));
                }
                Value::Object(out)
            },
        }
    }


    /// The value under a key of an object; the first occurrence wins.
    pub fn get(&self, key: &str) -> (r: Option<&Value>)
        ensures
            r matches Some(v) ==> (self@ matches Json::Object(ks, vs) && crate::config::field(ks, vs, key@) == Some(v@)),
            r is None ==> !(self@ matches Json::Object(ks, vs) && crate::config::field(ks, vs, key@) is Some),
    {
        match self {
            Value::Object(m) => {
                proof {
                    lemma_object_view(*m);
                }
                crate::config::get_field(m, key)
            },
            _ => None,
        }
    }

    /// The item at an index of an array.
    pub fn at(&self, index: usize) -> (r: Option<&Value>)
        ensures
            r matches Some(v) ==> (self@ matches Json::Array(a) && index < a.len() && a[index as int] == v@),
            r is None ==> !(self@ matches Json::Array(a) && index < a.len()),
    {
        match self {
            Value::Array(a) => {
                proof {
                    lemma_array_view(*a);
                }
                if index < a.len() {
                    Some(&a[index])
                } else {
                    None
                }
            },
            _ => None,
        }
    }

    /// The items of an array.
    pub fn as_array(&self) -> (r: Option<&Vec<Value>>)
        ensures
            r matches Some(a) ==> self@ == Json::Array(views(a@)),
            r is None ==> !(self@ is Array),
    {
        match self {
            Value::Array(a) => {
                proof {
                    lemma_array_view(*a);
                }
                Some(a)
            },
            _ => None,
        }
    }

    /// The text of a string.
    pub fn as_str(&self) -> (r: Option<&str>)
        ensures
            r matches Some(s) ==> self@ == Json::Str(s@),
            r is None ==> !(self@ is Str),
    {
        match self {
            Value::Str(s) => Some(s.as_str()),
            _ => None,
        }
    }

    /// The integer of an integral number.
    pub fn as_int(&self) -> (r: Option<i128>)
        ensures
            r matches Some(n) ==> self@ == Json::Int(n as int),
            r is None ==> !(self@ is Int),
    {
        match self {
            Value::Int(n) => Some(*n),
            _ => None,
        }
    }

    /// The truth value of a boolean.
    pub fn as_bool(&self) -> (r: Option<bool>)
        ensures
            r matches Some(b) ==> self@ == Json::Bool(b),
            r is None ==> !(self@ is Bool),
    {
        match self {
            Value::Bool(b) => Some(*b),
            _ => None,
        }
    }

    pub fn is_string(&self) -> (r: bool)
        ensures
            r == (self@ is Str),
    {
        match self {
            Value::Str(_) => true,
            _ => false,
        }
    }

    /// Whether the value is a number, integral or not.
    pub fn is_number(&self) -> (r: bool)
        ensures
            r == (self@ is Int || self@ is Float),
    {
        match self {
            Value::Int(_) => true,
            Value::Float(_) => true,
            _ => false,
        }
    }

    pub fn is_boolean(&self) -> (r: bool)
        ensures
            r == (self@ is Bool),
    {
        match self {
            Value::Bool(_) => true,
            _ => false,
        }
    }

    pub fn is_array(&self) -> (r: bool)
        ensures
            r == (self@ is Array),
    {
        match self {
            Value::Array(_) => true,
            _ => false,
        }
    }

    /// Whether the value is `null`.
    pub fn is_null(&self) -> (r: bool)
        ensures
            r == (self@ is Null),
    {
        match self {
            Value::Null => true,
            _ => false,
        }
    }

    /// Whether the value is truthy.
    pub fn is_truthy(&self) -> (r: bool)
        ensures
            r == truthy(self@),
    {
        match self {
            Value::Null => false,
            Value::Bool(b) => *b,
            Value::Int(n) => *n != 0,
            Value::Float(t) => {
                assert(self@ == Json::Float(t@));
                let cs = chars_of(t.as_str());
                let mut i: usize = 0;
                while i < cs.len()
                    invariant
                        self@ == Json::Float(t@),
                        cs@ == t@,
                        i <= cs.len(),
                        forall|j: int|
                            0 <= j < i ==> (cs@[j] == '0' || cs@[j] == '.' || cs@[j] == '-'
                                || cs@[j] == '+'),
                    decreases cs.len() - i,
                {
                    let c = cs[i];
                    if !(c == '0' || c == '.' || c == '-' || c == '+') {
                        assert(!float_text_is_zero(t@));
                        return true;
                    }
                    i = i + 1;
                }
                false
            },
            Value::Str(s) => s.as_str().unicode_len() > 0,
            Value::Array(a) => {
                proof {
                    lemma_array_view(*a);
                }
                a.len() > 0
            },
            Value::Object(_) => true,
        }
    }
}

} // verus!

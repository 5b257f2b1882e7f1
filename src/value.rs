use vstd::prelude::*;

verus! {

/// The largest integer magnitude that the host's number type holds exactly (2^53 - 1).
pub const MAX_SAFE_INTEGER: i64 = 9007199254740991;

/// A message payload as the simulation engine holds it.
#[derive(Debug)]
pub enum Payload {
    Null,
    Bool(bool),
    Int(i64),
    Text(String),
    List(Vec<Payload>),
    Record(Vec<(String, Payload)>),
}

/// A value in the host runtime's value model: what crosses the boundary.
#[derive(Debug, PartialEq)]
pub enum HostValue {
    Null,
    Bool(bool),
    Number(i64),
    Str(String),
    Array(Vec<HostValue>),
    Object(Vec<(String, HostValue)>),
}

/// Why a value could not be carried into the host's value model.
#[derive(Debug)]
pub struct ConversionError {
    pub message: String,
}

impl ConversionError {
    /// The human-readable reason.
    pub fn to_string(&self) -> (r: String)
        ensures
            r@ == self.message@,
    {
        self.message.clone()
    }
}

/// An integer that the host's number type holds exactly.
pub open spec fn is_safe_integer(n: int) -> bool {
    -MAX_SAFE_INTEGER <= n <= MAX_SAFE_INTEGER
}

/// Every integer anywhere inside `p` is one the host can hold exactly.
pub open spec fn representable(p: Payload) -> bool
    decreases p,
{
    match p {
        Payload::Int(n) => is_safe_integer(n as int),
        Payload::List(items) => forall|i: int|
            0 <= i < items.len() ==> representable(#[trigger] items[i]),
        Payload::Record(fields) => forall|i: int|
            #![trigger fields[i]]
            0 <= i < fields.len() ==> representable(fields[i].1),
        _ => true,
    }
}

/// `h` is the host image of `p`: same shape, same scalars, same keys in the same order.
pub open spec fn mirrors(p: Payload, h: HostValue) -> bool
    decreases p,
{
    match p {
        Payload::Null => h is Null,
        Payload::Bool(b) => h matches HostValue::Bool(c) && b == c,
        Payload::Int(n) => h matches HostValue::Number(m) && n == m,
        Payload::Text(s) => h matches HostValue::Str(t) && s@ == t@,
        Payload::List(items) => h matches HostValue::Array(hs) && items.len() == hs.len()
            && forall|i: int| 0 <= i < items.len() ==> mirrors(#[trigger] items[i], hs[i]),
        Payload::Record(fields) => h matches HostValue::Object(hs) && fields.len() == hs.len()
            && forall|i: int|
            #![trigger fields[i]]
            0 <= i < fields.len() ==> fields[i].0@ == hs[i].0@ && mirrors(fields[i].1, hs[i].1),
    }
}

/// `a` and `b` are the same host value: same shape, same scalars, same text.
pub open spec fn same_host(a: HostValue, b: HostValue) -> bool
    decreases a,
{
    match a {
        HostValue::Null => b is Null,
        HostValue::Bool(x) => b matches HostValue::Bool(y) && x == y,
        HostValue::Number(x) => b matches HostValue::Number(y) && x == y,
        HostValue::Str(s) => b matches HostValue::Str(t) && s@ == t@,
        HostValue::Array(xs) => b matches HostValue::Array(ys) && xs.len() == ys.len()
            && forall|i: int| 0 <= i < xs.len() ==> same_host(#[trigger] xs[i], ys[i]),
        HostValue::Object(xs) => b matches HostValue::Object(ys) && xs.len() == ys.len()
            && forall|i: int|
            #![trigger xs[i]]
            0 <= i < xs.len() ==> xs[i].0@ == ys[i].0@ && same_host(xs[i].1, ys[i].1),
    }
}

/// Every payload in `items` is representable.
pub open spec fn all_representable(items: Vec<Payload>) -> bool {
    forall|i: int| 0 <= i < items.len() ==> representable(#[trigger] items[i])
}

/// `h` is a host array whose elements are, in order, the host images of `items`.
pub open spec fn mirrors_list(items: Vec<Payload>, h: HostValue) -> bool {
    &&& h matches HostValue::Array(hs)
    &&& items.len() == hs.len()
    &&& forall|i: int| 0 <= i < items.len() ==> mirrors(#[trigger] items[i], hs[i])
}

fn unsafe_integer_error() -> (e: ConversionError)
    ensures
        e.message@.len() > 0,
{
    let message = "integer can't be represented as a host number".to_owned();
    proof {
        reveal_strlit("integer can't be represented as a host number");
    }
    ConversionError { message }
}

/// Carries each payload of `items`, in order, into one host array; fails exactly
/// when one of them is not representable.
pub fn list_to_host(items: &Vec<Payload>) -> (r: Result<HostValue, ConversionError>)
    ensures
        r is Ok <==> all_representable(*items),
        r matches Ok(h) ==> mirrors_list(*items, h),
        r matches Err(e) ==> e.message@.len() > 0,
    decreases items,
{
    let mut out: Vec<HostValue> = Vec::new();
    let mut i: usize = 0;
    while i < items.len()
        invariant
            i <= items.len(),
            out.len() == i,
            forall|j: int|
                0 <= j < i ==> representable(#[trigger] items[j]) && mirrors(items[j], out[j]),
        decreases items.len() - i,
    {
        proof {
            assert(decreases_to!(*items => items[i as int]));
        }
        match to_host(&items[i]) {
            Ok(h) => {
                let ghost before = out@;
                out.push(h);
                assert(forall|j: int| 0 <= j < i ==> out[j] == before[j]);
            },
            Err(e) => {
                return Err(e);
            },
        }
        i = i + 1;
    }
    Ok(HostValue::Array(out))
}

/// Carries `p` into the host's value model; fails exactly when some integer in it
/// lies outside the host's exact range.
pub fn to_host(p: &Payload) -> (r: Result<HostValue, ConversionError>)
    ensures
        r is Ok <==> representable(*p),
        r matches Ok(h) ==> mirrors(*p, h),
        r matches Err(e) ==> e.message@.len() > 0,
    decreases p,
{
    match p {
        Payload::Null => Ok(HostValue::Null),
        Payload::Bool(b) => Ok(HostValue::Bool(*b)),
        Payload::Int(n) => {
            if -MAX_SAFE_INTEGER <= *n && *n <= MAX_SAFE_INTEGER {
                Ok(HostValue::Number(*n))
            } else {
                Err(unsafe_integer_error())
            }
        },
        Payload::Text(s) => Ok(HostValue::Str(s.clone())),
        Payload::List(items) => {
            proof {
                assert(decreases_to!(*p => p->List_0));
            }
            list_to_host(items)
        },
        Payload::Record(fields) => {
            let mut out: Vec<(String, HostValue)> = Vec::new();
            let mut i: usize = 0;
            while i < fields.len()
                invariant
                    *p == Payload::Record(*fields),
                    i <= fields.len(),
                    out.len() == i,
                    forall|j: int|
                        #![trigger fields[j]]
                        0 <= j < i ==> representable(fields[j].1) && fields[j].0@ == out[j].0@
                            && mirrors(fields[j].1, out[j].1),
                decreases fields.len() - i,
            {
                proof {
                    assert(decreases_to!(*p => p->Record_0));
                    assert(decreases_to!(p->Record_0 => p->Record_0[i as int]));
                    assert(decreases_to!(p->Record_0[i as int] => p->Record_0[i as int].1));
                }
                match to_host(&fields[i].1) {
                    Ok(h) => {
                        let ghost before = out@;
                        out.push((fields[i].0.clone(), h));
                        assert(forall|j: int| 0 <= j < i ==> out[j] == before[j]);
                    },
                    Err(e) => {
                        return Err(e);
                    },
                }
                i = i + 1;
            }
            Ok(HostValue::Object(out))
        },
    }
}

/// A deep copy of `h`.
pub fn duplicate(h: &HostValue) -> (r: HostValue)
    ensures
        same_host(*h, r),
    decreases h,
{
    match h {
        HostValue::Null => HostValue::Null,
        HostValue::Bool(b) => HostValue::Bool(*b),
        HostValue::Number(n) => HostValue::Number(*n),
        HostValue::Str(s) => HostValue::Str(s.clone()),
        HostValue::Array(xs) => {
            let mut out: Vec<HostValue> = Vec::new();
            let mut i: usize = 0;
            while i < xs.len()
                invariant
                    *h == HostValue::Array(*xs),
                    i <= xs.len(),
                    out.len() == i,
                    forall|j: int| 0 <= j < i ==> same_host(#[trigger] xs[j], out[j]),
                decreases xs.len() - i,
            {
                proof {
                    assert(decreases_to!(*h => h->Array_0));
                    assert(decreases_to!(h->Array_0 => h->Array_0[i as int]));
                }
                let x = duplicate(&xs[i]);
                let ghost before = out@;
                out.push(x);
                assert(forall|j: int| 0 <= j < i ==> out[j] == before[j]);
                i = i + 1;
            }
            HostValue::Array(out)
        },
        HostValue::Object(xs) => {
            let mut out: Vec<(String, HostValue)> = Vec::new();
            let mut i: usize = 0;
            while i < xs.len()
                invariant
                    *h == HostValue::Object(*xs),
                    i <= xs.len(),
                    out.len() == i,
                    forall|j: int|
                        #![trigger xs[j]]
                        0 <= j < i ==> xs[j].0@ == out[j].0@ && same_host(xs[j].1, out[j].1),
                decreases xs.len() - i,
            {
                proof {
                    assert(decreases_to!(*h => h->Object_0));
                    assert(decreases_to!(h->Object_0 => h->Object_0[i as int]));
                    assert(decreases_to!(h->Object_0[i as int] => h->Object_0[i as int].1));
                }
                let x = duplicate(&xs[i].1);
                let ghost before = out@;
                out.push((xs[i].0.clone(), x));
                assert(forall|j: int| 0 <= j < i ==> out[j] == before[j]);
                i = i + 1;
            }
            HostValue::Object(out)
        },
    }
}

/// A host image of `p` stays one under `same_host`.
pub proof fn lemma_mirrors_same_host(p: Payload, a: HostValue, b: HostValue)
    requires
        mirrors(p, a),
        same_host(a, b),
    ensures
        mirrors(p, b),
    decreases p,
{
    match p {
        Payload::List(items) => {
            assert forall|i: int| 0 <= i < items.len() implies mirrors(
                #[trigger] items[i],
                b->Array_0[i],
            ) by {
                assert(decreases_to!(p => p->List_0));
                assert(decreases_to!(p->List_0 => p->List_0[i]));
                lemma_mirrors_same_host(items[i], a->Array_0[i], b->Array_0[i]);
            }
        },
        Payload::Record(fields) => {
            assert forall|i: int| 0 <= i < fields.len() implies #[trigger] fields[i].0@
                == b->Object_0[i].0@ && mirrors(fields[i].1, b->Object_0[i].1) by {
                assert(decreases_to!(p => p->Record_0));
                assert(decreases_to!(p->Record_0 => p->Record_0[i]));
                assert(decreases_to!(p->Record_0[i] => p->Record_0[i].1));
                assert(a->Object_0[i].0@ == b->Object_0[i].0@);
                lemma_mirrors_same_host(fields[i].1, a->Object_0[i].1, b->Object_0[i].1);
            }
        },
        _ => {},
    }
}

/// `same_host` is symmetric.
pub proof fn lemma_same_host_symmetric(a: HostValue, b: HostValue)
    requires
        same_host(a, b),
    ensures
        same_host(b, a),
    decreases a,
{
    match a {
        HostValue::Array(xs) => {
            let ys = b->Array_0;
            assert forall|i: int| 0 <= i < ys.len() implies same_host(#[trigger] ys[i], xs[i]) by {
                assert(decreases_to!(a => a->Array_0));
                assert(decreases_to!(a->Array_0 => a->Array_0[i]));
                lemma_same_host_symmetric(xs[i], ys[i]);
            }
        },
        HostValue::Object(xs) => {
            let ys = b->Object_0;
            assert forall|i: int| 0 <= i < ys.len() implies #[trigger] ys[i].0@ == xs[i].0@
                && same_host(ys[i].1, xs[i].1) by {
                assert(decreases_to!(a => a->Object_0));
                assert(decreases_to!(a->Object_0 => a->Object_0[i]));
                assert(decreases_to!(a->Object_0[i] => a->Object_0[i].1));
                assert(xs[i].0@ == ys[i].0@);
                lemma_same_host_symmetric(xs[i].1, ys[i].1);
            }
        },
        _ => {},
    }
}

/// `same_host` is transitive.
pub proof fn lemma_same_host_transitive(a: HostValue, b: HostValue, c: HostValue)
    requires
        same_host(a, b),
        same_host(b, c),
    ensures
        same_host(a, c),
    decreases a,
{
    match a {
        HostValue::Array(xs) => {
            let ys = b->Array_0;
            let zs = c->Array_0;
            assert forall|i: int| 0 <= i < xs.len() implies same_host(#[trigger] xs[i], zs[i]) by {
                assert(decreases_to!(a => a->Array_0));
                assert(decreases_to!(a->Array_0 => a->Array_0[i]));
                assert(same_host(ys[i], zs[i]));
                lemma_same_host_transitive(xs[i], ys[i], zs[i]);
            }
        },
        HostValue::Object(xs) => {
            let ys = b->Object_0;
            let zs = c->Object_0;
            assert forall|i: int| 0 <= i < xs.len() implies #[trigger] xs[i].0@ == zs[i].0@
                && same_host(xs[i].1, zs[i].1) by {
                assert(decreases_to!(a => a->Object_0));
                assert(decreases_to!(a->Object_0 => a->Object_0[i]));
                assert(decreases_to!(a->Object_0[i] => a->Object_0[i].1));
                assert(xs[i].0@ == ys[i].0@ && same_host(xs[i].1, ys[i].1));
                assert(ys[i].0@ == zs[i].0@ && same_host(ys[i].1, zs[i].1));
                lemma_same_host_transitive(xs[i].1, ys[i].1, zs[i].1);
            }
        },
        _ => {},
    }
}

} // verus!

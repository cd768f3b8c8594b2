//! The byte form of the values that a snapshot holds. Numbers are eight
//! bytes, least significant first; a text is its length in bytes and then its
//! UTF-8 bytes; a list is its length and then its items.

use vstd::bytes::{
    lemma_auto_spec_u64_to_from_le_bytes, spec_u64_from_le_bytes, spec_u64_to_le_bytes,
    u64_from_le_bytes, u64_to_le_bytes,
};
use vstd::prelude::*;
use vstd::slice::{slice_subrange, slice_to_vec};
use vstd::string::StringSliceAdditionalSpecFns;
use vstd::string::StrSliceExecFns;
use vstd::utf8::{decode_utf8, encode_utf8, valid_utf8};

verus! {

/// Whether the bytes `part` stand in `b` from position `p` on.
pub open spec fn occurs_at(b: Seq<u8>, p: int, part: Seq<u8>) -> bool {
    0 <= p && p + part.len() <= b.len() && b.subrange(p, p + part.len()) == part
}

/// Where two parts stand one after the other, each stands in its place.
pub proof fn lemma_occurs_split(b: Seq<u8>, p: int, first: Seq<u8>, second: Seq<u8>)
    requires
        occurs_at(b, p, first + second),
    ensures
        occurs_at(b, p, first),
        occurs_at(b, p + first.len(), second),
{
    let whole = first + second;
    assert(b.subrange(p, p + first.len()) =~= whole.subrange(0, first.len() as int));
    assert(whole.subrange(0, first.len() as int) =~= first);
    assert(b.subrange(p + first.len(), p + first.len() + second.len()) =~= whole.subrange(
        first.len() as int,
        whole.len() as int,
    ));
    assert(whole.subrange(first.len() as int, whole.len() as int) =~= second);
}

/// A value with a byte form that reads back as the value.
pub trait Wire: Sized {
    /// What a value holds.
    type Model;

    /// What this value holds.
    spec fn model(&self) -> Self::Model;

    /// Whether a value is small enough to have a byte form: every value
    /// that exists in memory is.
    spec fn fits(m: Self::Model) -> bool;

    /// The byte form of a value.
    spec fn encoded(m: Self::Model) -> Seq<u8>;

    /// The value whose byte form stands in `b` from `p` on, and the position
    /// after it; nothing where no byte form stands there.
    spec fn parsed(b: Seq<u8>, p: int) -> Option<(Self::Model, int)>;

    /// A byte form reads back as the value it was written from, wherever it
    /// stands.
    proof fn round_trip(m: Self::Model, b: Seq<u8>, p: int)
        requires
            Self::fits(m),
            occurs_at(b, p, Self::encoded(m)),
        ensures
            Self::parsed(b, p) == Some((m, p + Self::encoded(m).len())),
    ;

    /// Reading never goes backward nor past the end.
    proof fn parsed_advances(b: Seq<u8>, p: int)
        requires
            0 <= p <= b.len(),
        ensures
            Self::parsed(b, p) is Some ==> p <= Self::parsed(b, p)->Some_0.1 <= b.len(),
    ;

    /// Appends the byte form of this value to `out`.
    fn encode(&self, out: &mut Vec<u8>)
        ensures
            Self::fits(self.model()),
            final(out)@ == old(out)@ + Self::encoded(self.model()),
    ;

    /// Reads a value from `b` at `p`.
    fn decode(b: &Vec<u8>, p: usize) -> (r: Option<(Self, usize)>)
        requires
            p <= b.len(),
        ensures
            match Self::parsed(b@, p as int) {
                Some((m, q)) => r is Some && r->Some_0.0.model() == m && r->Some_0.1 == q,
                None => r is None,
            },
    ;
}

impl Wire for u64 {
    type Model = u64;

    open spec fn model(&self) -> u64 {
        *self
    }

    open spec fn fits(m: u64) -> bool {
        true
    }

    open spec fn encoded(m: u64) -> Seq<u8> {
        spec_u64_to_le_bytes(m)
    }

    open spec fn parsed(b: Seq<u8>, p: int) -> Option<(u64, int)> {
        if 0 <= p && p + 8 <= b.len() {
            Some((spec_u64_from_le_bytes(b.subrange(p, p + 8)), p + 8))
        } else {
            None
        }
    }

    proof fn round_trip(m: u64, b: Seq<u8>, p: int) {
        lemma_auto_spec_u64_to_from_le_bytes();
    }

    proof fn parsed_advances(b: Seq<u8>, p: int) {
    }

    fn encode(&self, out: &mut Vec<u8>) {
        let mut bytes = u64_to_le_bytes(*self);
        out.append(&mut bytes);
    }

    fn decode(b: &Vec<u8>, p: usize) -> (r: Option<(Self, usize)>) {
        if b.len() - p < 8 {
            return None;
        }
        let x = u64_from_le_bytes(slice_subrange(b.as_slice(), p, p + 8));
        Some((x, p + 8))
    }
}

/// Turns UTF-8 bytes into the text they spell, by `String::from_utf8`:
/// bytes that are valid UTF-8 give their text, any others give nothing.
#[verifier::external_body]
fn text_from_utf8(bytes: Vec<u8>) -> (r: Option<String>)
    ensures
        r is Some <==> valid_utf8(bytes@),
        r is Some ==> r->Some_0@ == decode_utf8(bytes@),
{
    match String::from_utf8(bytes) {
        Ok(s) => Some(s),
        Err(_) => None,
    }
}

/// Appends the byte form of the text `s` to `out`.
pub fn encode_text(s: &str, out: &mut Vec<u8>)
    ensures
        String::fits(s@),
        final(out)@ == old(out)@ + String::encoded(s@),
{
    let mut bytes = s.as_bytes_vec();
    let len: u64 = bytes.len() as u64;
    len.encode(out);
    out.append(&mut bytes);
    proof {
        assert(final(out)@ =~= old(out)@ + String::encoded(s@));
    }
}

impl Wire for String {
    type Model = Seq<char>;

    open spec fn model(&self) -> Seq<char> {
        self@
    }

    open spec fn fits(m: Seq<char>) -> bool {
        encode_utf8(m).len() <= u64::MAX
    }

    open spec fn encoded(m: Seq<char>) -> Seq<u8> {
        spec_u64_to_le_bytes(encode_utf8(m).len() as u64) + encode_utf8(m)
    }

    open spec fn parsed(b: Seq<u8>, p: int) -> Option<(Seq<char>, int)> {
        match u64::parsed(b, p) {
            Some((len, q)) => {
                if q + len <= b.len() && valid_utf8(b.subrange(q, q + len)) {
                    Some((decode_utf8(b.subrange(q, q + len)), q + len))
                } else {
                    None
                }
            },
            None => None,
        }
    }

    proof fn round_trip(m: Seq<char>, b: Seq<u8>, p: int) {
        let head = spec_u64_to_le_bytes(encode_utf8(m).len() as u64);
        let body = encode_utf8(m);
        lemma_auto_spec_u64_to_from_le_bytes();
        lemma_occurs_split(b, p, head, body);
        u64::round_trip(body.len() as u64, b, p);
        vstd::utf8::encode_utf8_valid_utf8(m);
        vstd::utf8::encode_utf8_decode_utf8(m);
    }

    proof fn parsed_advances(b: Seq<u8>, p: int) {
    }

    fn encode(&self, out: &mut Vec<u8>) {
        encode_text(self.as_str(), out);
    }

    fn decode(b: &Vec<u8>, p: usize) -> (r: Option<(Self, usize)>) {
        let (len, q) = match u64::decode(b, p) {
            Some(pair) => pair,
            None => {
                return None;
            },
        };
        if len > (b.len() - q) as u64 {
            return None;
        }
        let end: usize = q + len as usize;
        let bytes = slice_to_vec(slice_subrange(b.as_slice(), q, end));
        match text_from_utf8(bytes) {
            Some(s) => Some((s, end)),
            None => None,
        }
    }
}

impl Wire for u8 {
    type Model = u8;

    open spec fn model(&self) -> u8 {
        *self
    }

    open spec fn fits(m: u8) -> bool {
        true
    }

    open spec fn encoded(m: u8) -> Seq<u8> {
        seq![m]
    }

    open spec fn parsed(b: Seq<u8>, p: int) -> Option<(u8, int)> {
        if 0 <= p < b.len() {
            Some((b[p], p + 1))
        } else {
            None
        }
    }

    proof fn round_trip(m: u8, b: Seq<u8>, p: int) {
        assert(b.subrange(p, p + 1)[0] == b[p]);
    }

    proof fn parsed_advances(b: Seq<u8>, p: int) {
    }

    fn encode(&self, out: &mut Vec<u8>) {
        out.push(*self);
        proof {
            assert(final(out)@ =~= old(out)@ + seq![*self]);
        }
    }

    fn decode(b: &Vec<u8>, p: usize) -> (r: Option<(Self, usize)>) {
        if p < b.len() {
            Some((b[p], p + 1))
        } else {
            None
        }
    }
}

impl<A: Wire, B: Wire> Wire for (A, B) {
    type Model = (A::Model, B::Model);

    open spec fn model(&self) -> (A::Model, B::Model) {
        (self.0.model(), self.1.model())
    }

    open spec fn fits(m: (A::Model, B::Model)) -> bool {
        A::fits(m.0) && B::fits(m.1)
    }

    open spec fn encoded(m: (A::Model, B::Model)) -> Seq<u8> {
        A::encoded(m.0) + B::encoded(m.1)
    }

    open spec fn parsed(b: Seq<u8>, p: int) -> Option<((A::Model, B::Model), int)> {
        match A::parsed(b, p) {
            Some((first, q)) => match B::parsed(b, q) {
                Some((second, r)) => Some(((first, second), r)),
                None => None,
            },
            None => None,
        }
    }

    proof fn round_trip(m: (A::Model, B::Model), b: Seq<u8>, p: int) {
        lemma_occurs_split(b, p, A::encoded(m.0), B::encoded(m.1));
        A::round_trip(m.0, b, p);
        B::round_trip(m.1, b, p + A::encoded(m.0).len());
    }

    proof fn parsed_advances(b: Seq<u8>, p: int) {
        A::parsed_advances(b, p);
        if A::parsed(b, p) is Some {
            B::parsed_advances(b, A::parsed(b, p)->Some_0.1);
        }
    }

    fn encode(&self, out: &mut Vec<u8>) {
        self.0.encode(out);
        self.1.encode(out);
        proof {
            assert(final(out)@ =~= old(out)@ + Self::encoded(self.model()));
        }
    }

    fn decode(b: &Vec<u8>, p: usize) -> (r: Option<(Self, usize)>) {
        let (first, q) = match A::decode(b, p) {
            Some(pair) => pair,
            None => {
                return None;
            },
        };
        proof {
            A::parsed_advances(b@, p as int);
        }
        let (second, r) = match B::decode(b, q) {
            Some(pair) => pair,
            None => {
                return None;
            },
        };
        Some(((first, second), r))
    }
}

impl<T: Wire> Wire for Option<T> {
    type Model = Option<T::Model>;

    open spec fn model(&self) -> Option<T::Model> {
        match self {
            Some(x) => Some(x.model()),
            None => None,
        }
    }

    open spec fn fits(m: Option<T::Model>) -> bool {
        match m {
            Some(x) => T::fits(x),
            None => true,
        }
    }

    open spec fn encoded(m: Option<T::Model>) -> Seq<u8> {
        match m {
            Some(x) => seq![1u8] + T::encoded(x),
            None => seq![0u8],
        }
    }

    open spec fn parsed(b: Seq<u8>, p: int) -> Option<(Option<T::Model>, int)> {
        match u8::parsed(b, p) {
            Some((tag, q)) => {
                if tag == 0 {
                    Some((None, q))
                } else if tag == 1 {
                    match T::parsed(b, q) {
                        Some((x, r)) => Some((Some(x), r)),
                        None => None,
                    }
                } else {
                    None
                }
            },
            None => None,
        }
    }

    proof fn round_trip(m: Option<T::Model>, b: Seq<u8>, p: int) {
        match m {
            Some(x) => {
                lemma_occurs_split(b, p, seq![1u8], T::encoded(x));
                u8::round_trip(1u8, b, p);
                T::round_trip(x, b, p + 1);
            },
            None => {
                u8::round_trip(0u8, b, p);
            },
        }
    }

    proof fn parsed_advances(b: Seq<u8>, p: int) {
        if p < b.len() {
            T::parsed_advances(b, p + 1);
        }
    }

    fn encode(&self, out: &mut Vec<u8>) {
        match self {
            Some(x) => {
                out.push(1u8);
                x.encode(out);
                proof {
                    assert(final(out)@ =~= old(out)@ + Self::encoded(self.model()));
                }
            },
            None => {
                out.push(0u8);
                proof {
                    assert(final(out)@ =~= old(out)@ + Self::encoded(self.model()));
                }
            },
        }
    }

    fn decode(b: &Vec<u8>, p: usize) -> (r: Option<(Self, usize)>) {
        if p >= b.len() {
            return None;
        }
        let tag = b[p];
        if tag == 0 {
            Some((None, p + 1))
        } else if tag == 1 {
            match T::decode(b, p + 1) {
                Some((x, r)) => Some((Some(x), r)),
                None => None,
            }
        } else {
            None
        }
    }
}

/// What each item of a vector holds.
pub open spec fn models<T: Wire>(s: Seq<T>) -> Seq<T::Model> {
    Seq::new(s.len(), |i: int| s[i].model())
}

/// Whether every item is small enough to have a byte form.
pub open spec fn all_fit<T: Wire>(s: Seq<T::Model>) -> bool {
    forall|i: int| 0 <= i < s.len() ==> T::fits(#[trigger] s[i])
}

/// The byte forms of the items, one after the other.
pub open spec fn encoded_items<T: Wire>(s: Seq<T::Model>) -> Seq<u8>
    decreases s.len(),
{
    if s.len() == 0 {
        Seq::<u8>::empty()
    } else {
        encoded_items::<T>(s.drop_last()) + T::encoded(s.last())
    }
}

/// The `n` items whose byte forms stand in `b` from `p` on, one after the
/// other, and the position after the last.
pub open spec fn parsed_items<T: Wire>(b: Seq<u8>, p: int, n: nat) -> Option<
    (Seq<T::Model>, int),
>
    decreases n,
{
    if n == 0 {
        Some((Seq::<T::Model>::empty(), p))
    } else {
        match parsed_items::<T>(b, p, (n - 1) as nat) {
            Some((items, q)) => match T::parsed(b, q) {
                Some((item, r)) => Some((items.push(item), r)),
                None => None,
            },
            None => None,
        }
    }
}

/// Items written one after the other read back as the same items.
pub proof fn lemma_items_round_trip<T: Wire>(s: Seq<T::Model>, b: Seq<u8>, p: int)
    requires
        all_fit::<T>(s),
        occurs_at(b, p, encoded_items::<T>(s)),
    ensures
        parsed_items::<T>(b, p, s.len()) == Some((s, p + encoded_items::<T>(s).len())),
    decreases s.len(),
{
    if s.len() == 0 {
        assert(s =~= Seq::<T::Model>::empty());
    } else {
        let init = s.drop_last();
        lemma_occurs_split(b, p, encoded_items::<T>(init), T::encoded(s.last()));
        lemma_items_round_trip::<T>(init, b, p);
        T::round_trip(s.last(), b, p + encoded_items::<T>(init).len());
        assert(init.push(s.last()) =~= s);
    }
}

/// Reading items never goes backward nor past the end.
pub proof fn lemma_items_advance<T: Wire>(b: Seq<u8>, p: int, n: nat)
    requires
        0 <= p <= b.len(),
    ensures
        parsed_items::<T>(b, p, n) is Some ==> p <= parsed_items::<T>(b, p, n)->Some_0.1
            <= b.len() && parsed_items::<T>(b, p, n)->Some_0.0.len() == n,
    decreases n,
{
    if n > 0 {
        lemma_items_advance::<T>(b, p, (n - 1) as nat);
        if parsed_items::<T>(b, p, (n - 1) as nat) is Some {
            T::parsed_advances(b, parsed_items::<T>(b, p, (n - 1) as nat)->Some_0.1);
        }
    }
}

/// Where fewer items cannot be read, more cannot either.
pub proof fn lemma_items_fail<T: Wire>(b: Seq<u8>, p: int, k: nat, n: nat)
    requires
        k <= n,
        parsed_items::<T>(b, p, k) is None,
    ensures
        parsed_items::<T>(b, p, n) is None,
    decreases n,
{
    if k < n {
        lemma_items_fail::<T>(b, p, k, (n - 1) as nat);
    }
}

impl<T: Wire> Wire for Vec<T> {
    type Model = Seq<T::Model>;

    open spec fn model(&self) -> Seq<T::Model> {
        models(self@)
    }

    open spec fn fits(m: Seq<T::Model>) -> bool {
        m.len() <= u64::MAX && all_fit::<T>(m)
    }

    open spec fn encoded(m: Seq<T::Model>) -> Seq<u8> {
        spec_u64_to_le_bytes(m.len() as u64) + encoded_items::<T>(m)
    }

    open spec fn parsed(b: Seq<u8>, p: int) -> Option<(Seq<T::Model>, int)> {
        match u64::parsed(b, p) {
            Some((n, q)) => parsed_items::<T>(b, q, n as nat),
            None => None,
        }
    }

    proof fn round_trip(m: Seq<T::Model>, b: Seq<u8>, p: int) {
        lemma_auto_spec_u64_to_from_le_bytes();
        lemma_occurs_split(b, p, spec_u64_to_le_bytes(m.len() as u64), encoded_items::<T>(m));
        u64::round_trip(m.len() as u64, b, p);
        lemma_items_round_trip::<T>(m, b, p + 8);
    }

    proof fn parsed_advances(b: Seq<u8>, p: int) {
        if u64::parsed(b, p) is Some {
            lemma_items_advance::<T>(b, p + 8, u64::parsed(b, p)->Some_0.0 as nat);
        }
    }

    fn encode(&self, out: &mut Vec<u8>) {
        let len: u64 = self.len() as u64;
        len.encode(out);
        let ghost items = models(self@);
        let ghost head = old(out)@ + spec_u64_to_le_bytes(len);
        let mut i: usize = 0;
        proof {
            assert(items.take(0) =~= Seq::<T::Model>::empty());
            assert(out@ =~= head + encoded_items::<T>(items.take(0)));
        }
        while i < self.len()
            invariant
                i <= self.len(),
                items == models(self@),
                out@ == head + encoded_items::<T>(items.take(i as int)),
                all_fit::<T>(items.take(i as int)),
            decreases self.len() - i,
        {
            let ghost before = out@;
            self[i].encode(out);
            proof {
                assert(items.take(i + 1).drop_last() =~= items.take(i as int));
                assert(items.take(i + 1).last() == self@[i as int].model());
                assert(out@ =~= head + encoded_items::<T>(items.take(i + 1)));
                assert forall|k: int| 0 <= k < items.take(i + 1).len() implies T::fits(
                    #[trigger] items.take(i + 1)[k],
                ) by {
                    if k < i {
                        assert(items.take(i as int)[k] == items.take(i + 1)[k]);
                    }
                }
            }
            i = i + 1;
        }
        proof {
            assert(items.take(self.len() as int) =~= items);
            assert(out@ =~= old(out)@ + Self::encoded(self.model()));
        }
    }

    fn decode(b: &Vec<u8>, p: usize) -> (r: Option<(Self, usize)>) {
        let (n, start) = match u64::decode(b, p) {
            Some(pair) => pair,
            None => {
                return None;
            },
        };
        let mut items: Vec<T> = Vec::new();
        let mut q: usize = start;
        let mut i: u64 = 0;
        proof {
            assert(models(items@) =~= Seq::<T::Model>::empty());
        }
        while i < n
            invariant
                i <= n,
                start <= q <= b.len(),
                u64::parsed(b@, p as int) == Some((n, start as int)),
                parsed_items::<T>(b@, start as int, i as nat) == Some((models(items@), q as int)),
            decreases n - i,
        {
            let ghost so_far = models(items@);
            match T::decode(b, q) {
                Some((item, next)) => {
                    proof {
                        T::parsed_advances(b@, q as int);
                    }
                    items.push(item);
                    proof {
                        assert(models(items@) =~= so_far.push(item.model()));
                    }
                    q = next;
                },
                None => {
                    proof {
                        lemma_items_fail::<T>(b@, start as int, (i + 1) as nat, n as nat);
                    }
                    return None;
                },
            }
            i = i + 1;
        }
        Some((items, q))
    }
}

/// The value that the whole of `b` is the byte form of: nothing where `b`
/// is no byte form, or where bytes are left over.
pub open spec fn parsed_whole<T: Wire>(b: Seq<u8>) -> Option<T::Model> {
    match T::parsed(b, 0) {
        Some((m, q)) => if q == b.len() {
            Some(m)
        } else {
            None
        },
        None => None,
    }
}

/// A byte form on its own reads back as the value it was written from.
pub proof fn lemma_whole_round_trip<T: Wire>(m: T::Model)
    requires
        T::fits(m),
    ensures
        parsed_whole::<T>(T::encoded(m)) == Some(m),
{
    let b = T::encoded(m);
    assert(b.subrange(0, b.len() as int) =~= b);
    T::round_trip(m, b, 0);
}

/// The byte form of `value`, on its own.
pub fn encode_whole<T: Wire>(value: &T) -> (bytes: Vec<u8>)
    ensures
        T::fits(value.model()),
        bytes@ == T::encoded(value.model()),
        parsed_whole::<T>(bytes@) == Some(value.model()),
{
    let mut out: Vec<u8> = Vec::new();
    value.encode(&mut out);
    proof {
        assert(out@ =~= T::encoded(value.model()));
        lemma_whole_round_trip::<T>(value.model());
    }
    out
}

/// The value that the whole of `b` is the byte form of.
pub fn decode_whole<T: Wire>(b: &Vec<u8>) -> (r: Option<T>)
    ensures
        match parsed_whole::<T>(b@) {
            Some(m) => r is Some && r->Some_0.model() == m,
            None => r is None,
        },
{
    match T::decode(b, 0) {
        Some((value, q)) => {
            if q == b.len() {
                Some(value)
            } else {
                None
            }
        },
        None => None,
    }
}

} // verus!

//! The order in which the host's storage lists the keys of a map hashed with
//! `Twox64Concat`: by the bytes `twox_64(encode(key)) ++ encode(key)`.
use vstd::prelude::*;

verus! {

/// The identifier of a data series.
pub type FeedKey = u32;

/// The four bytes of `k`, least significant first.
pub open spec fn le_bytes(k: FeedKey) -> Seq<u8> {
    seq![
        (k % 256) as u8,
        ((k / 256) % 256) as u8,
        ((k / 65536) % 256) as u8,
        (k / 16777216) as u8,
    ]
}

/// The 64-bit xxHash digest, seed 0, of `data`, as eight bytes.
pub uninterp spec fn twox_64_of(data: Seq<u8>) -> Seq<u8>;

/// The bytes under which storage files `k`.
pub open spec fn storage_key(k: FeedKey) -> Seq<u8> {
    twox_64_of(le_bytes(k)) + le_bytes(k)
}

/// `s` read as a big-endian number. On byte strings of one length this
/// orders as comparing byte by byte does.
pub open spec fn be_value(s: Seq<u8>) -> nat
    decreases s.len(),
{
    if s.len() == 0 {
        0
    } else {
        be_value(s.drop_last()) * 256 + s.last() as nat
    }
}

/// Where `k` stands in storage's order of keys.
pub open spec fn storage_rank(k: FeedKey) -> nat {
    be_value(storage_key(k))
}

pub open spec fn pow256(n: nat) -> nat
    decreases n,
{
    if n == 0 {
        1
    } else {
        pow256((n - 1) as nat) * 256
    }
}

/// Relies on parity-scale-codec's `Encode` for `u32`: the encoding is the
/// four bytes of the number, least significant first.
#[verifier::external_body]
fn encode_key(k: FeedKey) -> (r: Vec<u8>)
    ensures
        r@ == le_bytes(k),
{
    parity_scale_codec::Encode::encode(&k)
}

/// Relies on sp_core_hashing::twox_64: the 64-bit xxHash digest with seed 0,
/// eight bytes long.
#[verifier::external_body]
fn twox_64(data: &Vec<u8>) -> (r: Vec<u8>)
    ensures
        r@ == twox_64_of(data@),
        r@.len() == 8,
{
    sp_core_hashing::twox_64(data.as_slice()).to_vec()
}

proof fn lemma_pow256_monotone(a: nat, b: nat)
    requires
        a <= b,
    ensures
        pow256(a) <= pow256(b),
    decreases b,
{
    if a < b {
        lemma_pow256_monotone(a, (b - 1) as nat);
    }
}

proof fn lemma_be_value_bound(s: Seq<u8>)
    ensures
        be_value(s) < pow256(s.len()),
    decreases s.len(),
{
    if s.len() > 0 {
        let d = s.drop_last();
        lemma_be_value_bound(d);
        let a = be_value(d);
        let p = pow256(d.len());
        let b = s.last() as nat;
        assert(a * 256 + b < p * 256) by (nonlinear_arith)
            requires
                a < p,
                b < 256,
        ;
    }
}

/// The storage key of `k`.
fn storage_key_of(k: FeedKey) -> (r: Vec<u8>)
    ensures
        r@ == storage_key(k),
        r@.len() == 12,
{
    let enc = encode_key(k);
    let mut r = twox_64(&enc);
    let mut i: usize = 0;
    while i < enc.len()
        invariant
            i <= enc@.len(),
            enc@ == le_bytes(k),
            r@ == twox_64_of(enc@) + enc@.take(i as int),
            twox_64_of(enc@).len() == 8,
        decreases enc@.len() - i,
    {
        r.push(enc[i]);
        i = i + 1;
        proof {
            assert(r@ =~= twox_64_of(enc@) + enc@.take(i as int));
        }
    }
    proof {
        assert(enc@.take(i as int) =~= enc@);
    }
    r
}

/// Where `k` stands in storage's order of keys.
pub fn storage_rank_of(k: FeedKey) -> (r: u128)
    ensures
        r == storage_rank(k),
{
    let bytes = storage_key_of(k);
    let mut acc: u128 = 0;
    let mut i: usize = 0;
    proof {
        reveal_with_fuel(pow256, 13);
        assert(pow256(12) == 79228162514264337593543950336);
    }
    while i < bytes.len()
        invariant
            i <= bytes@.len() == 12,
            acc == be_value(bytes@.take(i as int)),
            pow256(12) == 79228162514264337593543950336,
        decreases bytes@.len() - i,
    {
        proof {
            let t = bytes@.take(i + 1);
            assert(t.drop_last() =~= bytes@.take(i as int));
            lemma_be_value_bound(t);
            lemma_pow256_monotone((i + 1) as nat, 12);
        }
        acc = acc * 256 + bytes[i] as u128;
        i = i + 1;
    }
    proof {
        assert(bytes@.take(i as int) =~= bytes@);
    }
    acc
}

/// `keys` in storage's order.
pub fn in_storage_order(keys: &Vec<FeedKey>) -> (r: Vec<FeedKey>)
    requires
        keys@.no_duplicates(),
    ensures
        r@.no_duplicates(),
        forall|k: FeedKey| r@.contains(k) <==> keys@.contains(k),
        forall|i: int, j: int|
            0 <= i < j < r@.len() ==> storage_rank(#[trigger] r@[i]) <= storage_rank(#[trigger] r@[j]),
{
    let mut out: Vec<FeedKey> = Vec::new();
    let mut ranks: Vec<u128> = Vec::new();
    let mut n: usize = 0;
    while n < keys.len()
        invariant
            n <= keys@.len(),
            keys@.no_duplicates(),
            out@.len() == ranks@.len(),
            out@.no_duplicates(),
            forall|k: FeedKey| out@.contains(k) <==> keys@.take(n as int).contains(k),
            forall|j: int| 0 <= j < out@.len() ==> #[trigger] ranks@[j] == storage_rank(out@[j]),
            forall|i: int, j: int| 0 <= i < j < ranks@.len() ==> #[trigger] ranks@[i] <= #[trigger] ranks@[j],
        decreases keys@.len() - n,
    {
        let k = keys[n];
        let rk = storage_rank_of(k);
        let mut pos: usize = 0;
        while pos < ranks.len() && ranks[pos] <= rk
            invariant
                pos <= ranks@.len(),
                forall|j: int| 0 <= j < pos ==> #[trigger] ranks@[j] <= rk,
            decreases ranks@.len() - pos,
        {
            pos = pos + 1;
        }
        let ghost o = out@;
        let ghost q = ranks@;
        proof {
            assert(!o.contains(k)) by {
                if o.contains(k) {
                    let j = choose|j: int| 0 <= j < n && keys@.take(n as int)[j] == k;
                    assert(keys@[j] == keys@[n as int]);
                }
            }
        }
        out.insert(pos, k);
        ranks.insert(pos, rk);
        proof {
            o.insert_ensures(pos as int, k);
            q.insert_ensures(pos as int, rk);
            let no = out@;
            let nq = ranks@;
            assert(no == o.insert(pos as int, k));
            assert(nq == q.insert(pos as int, rk));
            assert forall|j: int| 0 <= j < no.len() implies #[trigger] nq[j] == storage_rank(no[j]) by {
                if j < pos {
                    assert(nq[j] == q[j] && no[j] == o[j]);
                } else if j > pos {
                    assert(nq[j] == q[j - 1] && no[j] == o[j - 1]);
                }
            }
            assert forall|i: int, j: int| 0 <= i < j < nq.len() implies #[trigger] nq[i] <= #[trigger] nq[j] by {
                if j < pos {
                    assert(nq[i] == q[i] && nq[j] == q[j]);
                } else if j == pos {
                    assert(nq[i] == q[i]);
                } else if i < pos {
                    assert(nq[i] == q[i] && nq[j] == q[j - 1]);
                } else if i == pos {
                    assert(nq[j] == q[j - 1]);
                    if j - 1 > pos {
                        assert(q[pos as int] <= q[j - 1]);
                    }
                } else {
                    assert(nq[i] == q[i - 1] && nq[j] == q[j - 1]);
                }
            }
            assert forall|a: int, b: int| 0 <= a < no.len() && 0 <= b < no.len() && a != b implies no[a] != no[b] by {
                let a2 = if a < pos { a } else if a == pos { -1 } else { a - 1 };
                let b2 = if b < pos { b } else if b == pos { -1 } else { b - 1 };
                if a2 >= 0 {
                    assert(no[a] == o[a2]);
                }
                if b2 >= 0 {
                    assert(no[b] == o[b2]);
                }
            }
            let tk = keys@.take(n + 1);
            assert(tk =~= keys@.take(n as int).push(k));
            assert forall|x: FeedKey| no.contains(x) <==> tk.contains(x) by {
                if no.contains(x) {
                    let j = choose|j: int| 0 <= j < no.len() && no[j] == x;
                    if j < pos {
                        assert(o[j] == x);
                        assert(o.contains(x));
                        let j2 = choose|j2: int| 0 <= j2 < n && keys@.take(n as int)[j2] == x;
                        assert(tk[j2] == x);
                    } else if j > pos {
                        assert(o[j - 1] == x);
                        assert(o.contains(x));
                        let j2 = choose|j2: int| 0 <= j2 < n && keys@.take(n as int)[j2] == x;
                        assert(tk[j2] == x);
                    } else {
                        assert(tk[n as int] == x);
                    }
                }
                if tk.contains(x) {
                    let j = choose|j: int| 0 <= j < tk.len() && tk[j] == x;
                    if j < n {
                        assert(keys@.take(n as int)[j] == x);
                        assert(o.contains(x));
                        let j2 = choose|j2: int| 0 <= j2 < o.len() && o[j2] == x;
                        if j2 < pos {
                            assert(no[j2] == x);
                        } else {
                            assert(no[j2 + 1] == x);
                        }
                    } else {
                        assert(no[pos as int] == x);
                    }
                }
            }
        }
        n = n + 1;
    }
    proof {
        assert(keys@.take(n as int) =~= keys@);
        assert forall|i: int, j: int|
            0 <= i < j < out@.len() implies storage_rank(#[trigger] out@[i]) <= storage_rank(#[trigger] out@[j]) by {
            assert(ranks@[i] <= ranks@[j]);
        }
    }
    out
}

} // verus!

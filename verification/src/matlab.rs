//! MAT-style variable files: each variable is a 64-byte zero-padded name, a little-endian
//! 64-bit count, and that many 64-bit little-endian values. The values are kept as the bit
//! patterns of the `f64` numbers they hold.
use vstd::prelude::*;
use crate::bytes::{
    byteorder_le_u64, copy_range, le64, le64_bytes, lemma_le64_of_bytes, push_all, push_le_u64, push_zeros,
};
use crate::error::IoErrorKind;
use crate::text::{chars_of, lossy_text, substring, utf8_lossy_string};
use vstd::utf8::{encode_utf8, encode_utf8_decode_utf8, encode_utf8_valid_utf8};

verus! {

/// A variable: its name and the bit patterns of its `f64` values.
#[derive(Debug)]
pub struct MatVariable {
    pub name: String,
    pub data: Vec<u64>,
}

/// `s` without its trailing `'\0'` characters.
pub open spec fn trim_nuls(s: Seq<char>) -> Seq<char>
    decreases s.len(),
{
    if s.len() > 0 && s.last() == '\0' {
        trim_nuls(s.drop_last())
    } else {
        s
    }
}

/// The name stored in a 64-byte name block.
pub open spec fn name_of(block: Seq<u8>) -> Seq<char> {
    trim_nuls(lossy_text(block))
}

/// The `n` values that start at `at` in `d`.
pub open spec fn values_at(d: Seq<u8>, at: int, n: int) -> Seq<u64> {
    Seq::new(n as nat, |i: int| le64(d, at + 8 * i) as u64)
}

/// The variables stored in `d` from `pos` on, as names and values; `None` where a variable is
/// cut off.
pub open spec fn mat_variables(d: Seq<u8>, pos: int) -> Option<Seq<(Seq<char>, Seq<u64>)>>
    decreases d.len() - pos,
{
    if pos < 0 || pos >= d.len() {
        Some(Seq::empty())
    } else if pos + 72 > d.len() {
        None
    } else {
        let n = le64(d, pos + 64);
        let end = pos + 72 + 8 * n;
        if end > d.len() {
            None
        } else {
            match mat_variables(d, end) {
                Some(rest) => Some(seq![(name_of(d.subrange(pos, pos + 64)), values_at(d, pos + 72, n))] + rest),
                None => None,
            }
        }
    }
}

/// The names and values of `vars`.
pub open spec fn variables_view(vars: Seq<MatVariable>) -> Seq<(Seq<char>, Seq<u64>)> {
    vars.map_values(|v: MatVariable| (v.name@, v.data@))
}

/// The little-endian bytes of the values `data`.
pub open spec fn values_bytes(data: Seq<u64>) -> Seq<u8>
    decreases data.len(),
{
    if data.len() == 0 {
        Seq::empty()
    } else {
        values_bytes(data.drop_last()) + le64_bytes(data.last() as int)
    }
}

/// The bytes of one variable: the name padded with zeros to 64 bytes, the count, the values.
pub open spec fn variable_bytes(name: Seq<u8>, data: Seq<u64>) -> Seq<u8> {
    name + Seq::new((64 - name.len()) as nat, |_i: int| 0u8) + le64_bytes(data.len() as int)
        + values_bytes(data)
}

/// `s` without its trailing `'\0'` characters.
fn trim_trailing_nuls(s: &str) -> (r: String)
    ensures
        r@ == trim_nuls(s@),
{
    let v = chars_of(s);
    let mut b = v.len();
    assert(v@.subrange(0, b as int) =~= v@);
    while b > 0 && v[b - 1] == '\0'
        invariant
            v@ == s@,
            b <= v@.len(),
            trim_nuls(v@.subrange(0, b as int)) == trim_nuls(s@),
        decreases b,
    {
        assert(v@.subrange(0, b as int).drop_last() =~= v@.subrange(0, b - 1));
        b = b - 1;
    }
    let r = substring(s, 0, b);
    proof {
        let t = v@.subrange(0, b as int);
        if b > 0 {
            assert(t.last() == v@[b - 1]);
        }
        assert(trim_nuls(t) == t);
    }
    r
}

/// Reads the variables of a file's bytes, one after another until the end. A variable cut
/// off part-way is an unexpected end of the data.
pub fn read_mat_bytes(d: &[u8]) -> (r: Result<Vec<MatVariable>, IoErrorKind>)
    ensures
        match mat_variables(d@, 0) {
            Some(vs) => r matches Ok(v) && variables_view(v@) == vs,
            None => r == Err::<Vec<MatVariable>, IoErrorKind>(IoErrorKind::UnexpectedEof),
        },
{
    let len = d.len();
    let mut vars: Vec<MatVariable> = Vec::new();
    let mut pos: usize = 0;
    while pos < len
        invariant
            len == d@.len(),
            pos <= len,
            mat_variables(d@, 0) == (match mat_variables(d@, pos as int) {
                Some(rest) => Some(variables_view(vars@) + rest),
                None => None::<Seq<(Seq<char>, Seq<u64>)>>,
            }),
        decreases len - pos,
    {
        if len - pos < 72 {
            return Err(IoErrorKind::UnexpectedEof);
        }
        let block = copy_range(d, pos, pos + 64);
        let name_text = utf8_lossy_string(block.as_slice());
        let name = trim_trailing_nuls(name_text.as_str());
        let count_bytes = vstd::slice::slice_subrange(d, pos + 64, pos + 72);
        let count = byteorder_le_u64(count_bytes);
        assert(le64(count_bytes@, 0) == le64(d@, pos + 64));
        if count > ((len - pos - 72) / 8) as u64 {
            return Err(IoErrorKind::UnexpectedEof);
        }
        let at = pos + 72;
        let n = count as usize;
        let mut data: Vec<u64> = Vec::new();
        let mut k: usize = 0;
        while k < n
            invariant
                len == d@.len(),
                at + 8 * n <= len,
                k <= n,
                data@ == values_at(d@, at as int, k as int),
            decreases n - k,
        {
            let s = vstd::slice::slice_subrange(d, at + 8 * k, at + 8 * k + 8);
            let x = byteorder_le_u64(s);
            assert(le64(s@, 0) == le64(d@, at + 8 * k));
            data.push(x);
            k = k + 1;
            assert(data@ =~= values_at(d@, at as int, k as int));
        }
        let ghost before = vars@;
        vars.push(MatVariable { name, data });
        assert(variables_view(vars@) =~= variables_view(before).push((name_of(d@.subrange(pos as int, pos + 64)), values_at(d@, at as int, n as int))));
        pos = at + 8 * n;
        proof {
            let p0 = pos - 8 * n - 72;
            match mat_variables(d@, pos as int) {
                Some(rest) => {
                    assert(variables_view(vars@) + rest =~= variables_view(before) + (seq![(name_of(d@.subrange(p0, p0 + 64)), values_at(d@, p0 + 72, n as int))] + rest));
                },
                None => {},
            }
        }
    }
    assert(variables_view(vars@) + Seq::<(Seq<char>, Seq<u64>)>::empty() =~= variables_view(vars@));
    Ok(vars)
}

/// The bytes of a file holding the variables `vars`, given as name bytes and values.
pub open spec fn mat_file_bytes(vars: Seq<(Seq<u8>, Seq<u64>)>) -> Seq<u8>
    decreases vars.len(),
{
    if vars.len() == 0 {
        Seq::empty()
    } else {
        mat_file_bytes(vars.drop_last()) + variable_bytes(vars.last().0, vars.last().1)
    }
}

/// The UTF-8 bytes of the names of `vars`, with their values.
pub open spec fn encoded_variables(vars: Seq<MatVariable>) -> Seq<(Seq<u8>, Seq<u64>)> {
    vars.map_values(|v: MatVariable| (encode_utf8(v.name@), v.data@))
}

/// The bytes of a file holding `vars`. Each name is at most 64 bytes long.
pub fn write_mat_bytes(vars: &Vec<MatVariable>) -> (r: Vec<u8>)
    requires
        forall|i: int| 0 <= i < vars@.len() ==> encode_utf8((#[trigger] vars@[i]).name@).len() <= 64,
    ensures
        r@ == mat_file_bytes(encoded_variables(vars@)),
{
    let mut out: Vec<u8> = Vec::new();
    let mut i: usize = 0;
    while i < vars.len()
        invariant
            i <= vars@.len(),
            forall|j: int| 0 <= j < vars@.len() ==> encode_utf8((#[trigger] vars@[j]).name@).len() <= 64,
            out@ == mat_file_bytes(encoded_variables(vars@).take(i as int)),
        decreases vars@.len() - i,
    {
        let v = &vars[i];
        let ghost start = out@;
        let name_bytes = v.name.as_str().as_bytes();
        assert(encode_utf8(vars@[i as int].name@).len() <= 64);
        push_all(&mut out, name_bytes);
        push_zeros(&mut out, 64 - name_bytes.len());
        push_le_u64(&mut out, v.data.len() as u64);
        let mut k: usize = 0;
        while k < v.data.len()
            invariant
                k <= v.data@.len(),
                name_bytes@.len() <= 64,
                out@ == start + name_bytes@ + Seq::new((64 - name_bytes@.len()) as nat, |_i: int| 0u8)
                    + le64_bytes(v.data@.len() as int) + values_bytes(v.data@.take(k as int)),
            decreases v.data@.len() - k,
        {
            assert(v.data@.take(k + 1).drop_last() =~= v.data@.take(k as int));
            push_le_u64(&mut out, v.data[k]);
            k = k + 1;
        }
        assert(v.data@.take(k as int) =~= v.data@);
        assert(encoded_variables(vars@).take(i + 1).drop_last() =~= encoded_variables(vars@).take(i as int));
        i = i + 1;
    }
    assert(encoded_variables(vars@).take(i as int) =~= encoded_variables(vars@));
    out
}

/// `m` zero bytes.
pub open spec fn zeros(m: nat) -> Seq<u8> {
    Seq::new(m, |_i: int| 0u8)
}

/// `m` `'\0'` characters.
pub open spec fn nuls(m: nat) -> Seq<char> {
    Seq::new(m, |_i: int| '\0')
}

proof fn lemma_encode_utf8_append(x: Seq<char>, y: Seq<char>)
    ensures
        encode_utf8(x + y) == encode_utf8(x) + encode_utf8(y),
    decreases x.len(),
{
    if x.len() > 0 {
        lemma_encode_utf8_append(x.drop_first(), y);
        assert((x + y).drop_first() =~= x.drop_first() + y);
        assert((x + y)[0] == x[0]);
        assert(encode_utf8(x + y) =~= encode_utf8(x) + encode_utf8(y));
    } else {
        assert(x + y =~= y);
    }
}

proof fn lemma_encode_utf8_nuls(m: nat)
    ensures
        encode_utf8(nuls(m)) == zeros(m),
    decreases m,
{
    if m > 0 {
        lemma_encode_utf8_nuls((m - 1) as nat);
        assert(nuls(m).drop_first() =~= nuls((m - 1) as nat));
        assert(('\0' as u32) == 0u32);
        assert((0u32 & 0x7F) as u8 == 0u8) by (bit_vector);
        assert(zeros(m) =~= seq![0u8] + zeros((m - 1) as nat));
    }
}

proof fn lemma_trim_nuls_padded(name: Seq<char>, m: nat)
    requires
        name.len() == 0 || name.last() != '\0',
    ensures
        trim_nuls(name + nuls(m)) == name,
    decreases m,
{
    if m > 0 {
        assert((name + nuls(m)).drop_last() =~= name + nuls((m - 1) as nat));
        lemma_trim_nuls_padded(name, (m - 1) as nat);
    } else {
        assert(name + nuls(m) =~= name);
    }
}

/// The name block written for `name` holds `name`.
proof fn lemma_name_block(name: Seq<char>)
    requires
        encode_utf8(name).len() <= 64,
        name.len() == 0 || name.last() != '\0',
    ensures
        name_of(encode_utf8(name) + Seq::new((64 - encode_utf8(name).len()) as nat, |_i: int| 0u8)) == name,
{
    let m = (64 - encode_utf8(name).len()) as nat;
    lemma_encode_utf8_nuls(m);
    lemma_encode_utf8_append(name, nuls(m));
    assert(Seq::new(m, |_i: int| 0u8) == zeros(m));
    let block = encode_utf8(name + nuls(m));
    encode_utf8_valid_utf8(name + nuls(m));
    encode_utf8_decode_utf8(name + nuls(m));
    lemma_trim_nuls_padded(name, m);
}

proof fn lemma_values_bytes(data: Seq<u64>)
    ensures
        values_bytes(data).len() == 8 * data.len(),
        forall|i: int| 0 <= i < data.len() ==> values_bytes(data).subrange(8 * i, 8 * i + 8)
            == le64_bytes(#[trigger] data[i] as int),
    decreases data.len(),
{
    if data.len() > 0 {
        let p = data.drop_last();
        lemma_values_bytes(p);
        let b = values_bytes(data);
        assert forall|i: int| 0 <= i < data.len() implies b.subrange(8 * i, 8 * i + 8)
            == le64_bytes(#[trigger] data[i] as int) by {
            if i < p.len() {
                assert(b.subrange(8 * i, 8 * i + 8) =~= values_bytes(p).subrange(8 * i, 8 * i + 8));
                assert(data[i] == p[i]);
            } else {
                assert(b.subrange(8 * i, 8 * i + 8) =~= le64_bytes(data.last() as int));
            }
        }
    }
}

proof fn lemma_le64_shift(a: Seq<u8>, b: Seq<u8>, p: int)
    requires
        0 <= p,
        p + 8 <= b.len(),
    ensures
        le64(a + b, a.len() + p) == le64(b, p),
{
    let d = a + b;
    let q = a.len() + p;
    assert(d[q] == b[p] && d[q + 1] == b[p + 1] && d[q + 2] == b[p + 2] && d[q + 3] == b[p + 3]);
    assert(d[q + 4] == b[p + 4] && d[q + 5] == b[p + 5] && d[q + 6] == b[p + 6] && d[q + 7] == b[p + 7]);
}

proof fn lemma_le64_prefix(a: Seq<u8>, b: Seq<u8>, p: int)
    requires
        0 <= p,
        p + 8 <= a.len(),
    ensures
        le64(a + b, p) == le64(a, p),
{
    let d = a + b;
    assert(d[p] == a[p] && d[p + 1] == a[p + 1] && d[p + 2] == a[p + 2] && d[p + 3] == a[p + 3]);
    assert(d[p + 4] == a[p + 4] && d[p + 5] == a[p + 5] && d[p + 6] == a[p + 6] && d[p + 7] == a[p + 7]);
}

/// What follows a prefix is read as if the prefix were not there.
proof fn lemma_mat_variables_shift(a: Seq<u8>, b: Seq<u8>, p: int)
    requires
        0 <= p,
    ensures
        mat_variables(a + b, a.len() + p) == mat_variables(b, p),
    decreases b.len() - p,
{
    let d = a + b;
    let q = a.len() + p;
    if p < b.len() && p + 72 <= b.len() {
        lemma_le64_shift(a, b, p + 64);
        let n = le64(b, p + 64);
        if p + 72 + 8 * n <= b.len() {
            lemma_mat_variables_shift(a, b, p + 72 + 8 * n);
            assert(d.subrange(q, q + 64) =~= b.subrange(p, p + 64));
            assert forall|i: int| 0 <= i < n implies #[trigger] values_at(d, q + 72, n)[i] == values_at(b, p + 72, n)[i] by {
                lemma_le64_shift(a, b, p + 72 + 8 * i);
            }
            assert(values_at(d, q + 72, n) =~= values_at(b, p + 72, n));
        }
    }
}

proof fn lemma_mat_file_bytes_front(ev: Seq<(Seq<u8>, Seq<u64>)>)
    requires
        ev.len() > 0,
    ensures
        mat_file_bytes(ev) == variable_bytes(ev[0].0, ev[0].1) + mat_file_bytes(ev.drop_first()),
    decreases ev.len(),
{
    if ev.len() == 1 {
        assert(ev.drop_last() =~= Seq::<(Seq<u8>, Seq<u64>)>::empty());
        assert(ev.drop_first() =~= Seq::<(Seq<u8>, Seq<u64>)>::empty());
        assert(mat_file_bytes(ev) =~= variable_bytes(ev[0].0, ev[0].1) + mat_file_bytes(ev.drop_first()));
    } else {
        lemma_mat_file_bytes_front(ev.drop_last());
        assert(ev.drop_last().drop_first() =~= ev.drop_first().drop_last());
        assert(ev.drop_first().last() == ev.last());
        assert(ev.drop_last()[0] == ev[0]);
        assert(mat_file_bytes(ev) =~= variable_bytes(ev[0].0, ev[0].1) + mat_file_bytes(ev.drop_first()));
    }
}

/// A variable the file format gives back unchanged: its name fits in the 64-byte block and
/// does not end with `'\0'`, and its count fits in 64 bits.
pub open spec fn storable(v: MatVariable) -> bool {
    &&& encode_utf8(v.name@).len() <= 64
    &&& v.name@.len() == 0 || v.name@.last() != '\0'
    &&& v.data@.len() < 0x1_0000_0000_0000_0000
}

proof fn lemma_first_variable_fields(v0: MatVariable, r: Seq<u8>)
    requires
        storable(v0),
    ensures
        ({
            let enc = encode_utf8(v0.name@);
            let n = v0.data@.len() as int;
            let d = variable_bytes(enc, v0.data@) + r;
            &&& variable_bytes(enc, v0.data@).len() == 72 + 8 * n
            &&& le64(d, 64) == n
            &&& name_of(d.subrange(0, 64)) == v0.name@
            &&& values_at(d, 72, n) == v0.data@
        }),
{
    let enc = encode_utf8(v0.name@);
    let data = v0.data@;
    let n = data.len() as int;
    let b0 = variable_bytes(enc, data);
    let d = b0 + r;
    lemma_values_bytes(data);
    assert(b0.subrange(64, 72) =~= le64_bytes(n));
    lemma_le64_of_bytes(b0, 64, n);
    lemma_le64_prefix(b0, r, 64);
    assert(d.subrange(0, 64) =~= enc + Seq::new((64 - enc.len()) as nat, |_i: int| 0u8));
    lemma_name_block(v0.name@);
    assert forall|i: int| 0 <= i < n implies #[trigger] values_at(d, 72, n)[i] == data[i] by {
        lemma_le64_prefix(b0, r, 72 + 8 * i);
        assert(b0.subrange(72 + 8 * i, 80 + 8 * i) =~= values_bytes(data).subrange(8 * i, 8 * i + 8));
        lemma_le64_of_bytes(b0, 72 + 8 * i, data[i] as int);
    }
    assert(values_at(d, 72, n) =~= data);
}

proof fn lemma_first_variable(v0: MatVariable, r: Seq<u8>)
    requires
        storable(v0),
    ensures
        mat_variables(variable_bytes(encode_utf8(v0.name@), v0.data@) + r, 0) == (match mat_variables(r, 0) {
            Some(rest) => Some(seq![(v0.name@, v0.data@)] + rest),
            None => None,
        }),
{
    let b0 = variable_bytes(encode_utf8(v0.name@), v0.data@);
    lemma_first_variable_fields(v0, r);
    lemma_mat_variables_shift(b0, r, 0);
}

/// Reading the bytes written for variables gives back their names and values, where every
/// name fits its block and does not end with `'\0'`.
#[verifier::spinoff_prover]
#[verifier::rlimit(30)]
pub proof fn lemma_mat_write_then_read(vars: Seq<MatVariable>)
    requires
        forall|i: int| 0 <= i < vars.len() ==> storable(#[trigger] vars[i]),
    ensures
        mat_variables(mat_file_bytes(encoded_variables(vars)), 0) == Some(variables_view(vars)),
    decreases vars.len(),
{
    let ev = encoded_variables(vars);
    if vars.len() == 0 {
        assert(variables_view(vars) =~= Seq::<(Seq<char>, Seq<u64>)>::empty());
    } else {
        let rest = vars.drop_first();
        assert forall|i: int| 0 <= i < rest.len() implies storable(#[trigger] rest[i]) by {
            assert(rest[i] == vars[i + 1]);
        }
        lemma_mat_write_then_read(rest);
        assert(ev.drop_first() =~= encoded_variables(rest));
        lemma_mat_file_bytes_front(ev);
        assert(storable(vars[0]));
        lemma_first_variable(vars[0], mat_file_bytes(encoded_variables(rest)));
        assert(variables_view(vars) =~= seq![(vars[0].name@, vars[0].data@)] + variables_view(rest));
    }
}

} // verus!

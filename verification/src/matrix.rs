//! Fixed-size byte matrices with caller-supplied element arithmetic.
//!
//! A `ByteMatrix<M, N>` is modelled by its view, a sequence of `M` rows of `N`
//! bytes each. The matrix knows nothing of the field its elements live in: the
//! product takes the scalar multiplication and the accumulation as arguments.
use crate::xor_seq;
use vstd::arithmetic::div_mod::lemma_fundamental_div_mod_converse;
use vstd::prelude::*;

verus! {

/// The rows of a nested array, as a sequence of sequences.
pub open spec fn rows_view<const M: usize, const N: usize>(rows: [[u8; N]; M]) -> Seq<Seq<u8>> {
    Seq::new(M as nat, |i: int| rows[i]@)
}

/// The `rows` x `cols` matrix of zero bytes.
pub open spec fn zeros(rows: nat, cols: nat) -> Seq<Seq<u8>> {
    Seq::new(rows, |i: int| Seq::new(cols, |j: int| 0u8))
}

/// The `rows` x `cols` matrix whose rows are consecutive runs of `bytes`.
pub open spec fn unflatten(bytes: Seq<u8>, rows: nat, cols: nat) -> Seq<Seq<u8>> {
    Seq::new(rows, |i: int| Seq::new(cols, |j: int| bytes[i * cols + j]))
}

/// The rows of a matrix with `cols` columns, one after the other.
pub open spec fn flatten(m: Seq<Seq<u8>>, cols: nat) -> Seq<u8> {
    Seq::new(m.len() * cols, |k: int| m[k / (cols as int)][k % (cols as int)])
}

/// Column `j` of a matrix.
pub open spec fn column(m: Seq<Seq<u8>>, j: int) -> Seq<u8> {
    Seq::new(m.len(), |i: int| m[i][j])
}

/// The transpose of a matrix with `cols` columns: row `j` of the result is
/// column `j` of `m`. The column count is an argument because a matrix
/// without rows does not show how wide it is.
pub open spec fn transpose(m: Seq<Seq<u8>>, cols: nat) -> Seq<Seq<u8>> {
    Seq::new(cols, |j: int| column(m, j))
}

/// Elementwise XOR of two matrices, over the shape of the first.
pub open spec fn xor_rows(a: Seq<Seq<u8>>, b: Seq<Seq<u8>>) -> Seq<Seq<u8>> {
    Seq::new(a.len(), |i: int| xor_seq(a[i], b[i]))
}

/// The lowercase hexadecimal digit of a value below 16.
pub open spec fn hex_digit(n: u8) -> char {
    if n < 10 {
        ((0x30 + n) as u8) as char
    } else {
        ((0x61 + (n - 10)) as u8) as char
    }
}

/// Two lowercase hexadecimal digits for each byte, the high half first.
pub open spec fn hex_lower(bytes: Seq<u8>) -> Seq<char> {
    Seq::new(
        2 * bytes.len(),
        |i: int|
            if i % 2 == 0 {
                hex_digit(bytes[i / 2] >> 4)
            } else {
                hex_digit(bytes[i / 2] & 0x0f)
            },
    )
}

/// `hex::encode`: the crate writes each byte as two characters taken from
/// `0123456789abcdef`, the one for the byte's high four bits first, in the
/// order of the bytes.
#[verifier::external_body]
fn hex_encode(bytes: &Vec<u8>) -> (s: String)
    ensures
        s@ == hex_lower(bytes@),
{
    hex::encode(bytes)
}

/// Whether one step of a product's accumulation can lead from `prev` to `acc`:
/// `prod` is a result of `mul_fn((x, y))` and `acc` a result of
/// `add_fn(prev, prod)`.
pub open spec fn fold_step<MulFn: Fn((u8, u8)) -> u8, AddFn: Fn(u8, u8) -> u8>(
    mul_fn: MulFn,
    add_fn: AddFn,
    x: u8,
    y: u8,
    prev: u8,
    prod: u8,
    acc: u8,
) -> bool {
    call_ensures(mul_fn, ((x, y),), prod) && call_ensures(add_fn, (prev, prod), acc)
}

/// Whether `acc` can come out of accumulating the first `k` products of `row`
/// and `col`, starting from zero and going left to right: product `i` is a
/// result of `mul_fn((row[i], col[i]))`, and each step is a result of
/// `add_fn(previous, product)`.
pub open spec fn dot_fold<MulFn: Fn((u8, u8)) -> u8, AddFn: Fn(u8, u8) -> u8>(
    mul_fn: MulFn,
    add_fn: AddFn,
    row: Seq<u8>,
    col: Seq<u8>,
    k: nat,
    acc: u8,
) -> bool
    decreases k,
{
    if k == 0 {
        acc == 0
    } else {
        exists|prev: u8, prod: u8|
            dot_fold(mul_fn, add_fn, row, col, (k - 1) as nat, prev) && #[trigger] fold_step(
                mul_fn,
                add_fn,
                row[k - 1],
                col[k - 1],
                prev,
                prod,
                acc,
            )
    }
}

/// The accumulated product of the first `k` entries of `row` and `col` under
/// the operations `times` and `plus`, starting from zero and going left to
/// right.
pub open spec fn dot(
    times: spec_fn(u8, u8) -> u8,
    plus: spec_fn(u8, u8) -> u8,
    row: Seq<u8>,
    col: Seq<u8>,
    k: nat,
) -> u8
    decreases k,
{
    if k == 0 {
        0
    } else {
        plus(dot(times, plus, row, col, (k - 1) as nat), times(row[k - 1], col[k - 1]))
    }
}

/// Where the two functions handed to a product compute `times` and `plus`,
/// the only value that can come out of the fold is `dot`.
pub proof fn lemma_dot_fold_is_dot<MulFn: Fn((u8, u8)) -> u8, AddFn: Fn(u8, u8) -> u8>(
    mul_fn: MulFn,
    add_fn: AddFn,
    times: spec_fn(u8, u8) -> u8,
    plus: spec_fn(u8, u8) -> u8,
    row: Seq<u8>,
    col: Seq<u8>,
    k: nat,
    acc: u8,
)
    requires
        forall|a: u8, b: u8, p: u8| call_ensures(mul_fn, ((a, b),), p) ==> p == times(a, b),
        forall|a: u8, b: u8, s: u8| call_ensures(add_fn, (a, b), s) ==> s == plus(a, b),
        dot_fold(mul_fn, add_fn, row, col, k, acc),
    ensures
        acc == dot(times, plus, row, col, k),
    decreases k,
{
    if k > 0 {
        let (prev, prod) = choose|prev: u8, prod: u8|
            dot_fold(mul_fn, add_fn, row, col, (k - 1) as nat, prev) && #[trigger] fold_step(
                mul_fn,
                add_fn,
                row[k - 1],
                col[k - 1],
                prev,
                prod,
                acc,
            );
        lemma_dot_fold_is_dot(mul_fn, add_fn, times, plus, row, col, (k - 1) as nat, prev);
    }
}

/// A matrix of `M` rows and `N` columns of bytes, stored row by row.
#[derive(Debug, PartialEq, Clone, Copy)]
pub struct ByteMatrix<const M: usize, const N: usize> {
    pub inner: [[u8; N]; M],
}

/// Why a flat run of bytes could not be made into a matrix.
#[derive(Debug, PartialEq)]
pub enum TryFromArrayError {
    /// `len` bytes were given for a matrix of `rows` x `cols`.
    InvalidLen { len: usize, cols: usize, rows: usize },
}

/// The character for a decimal digit.
pub open spec fn digit_char(d: nat) -> char
    recommends
        d < 10,
{
    ((0x30 + d) as u8) as char
}

/// A number in decimal, without leading zeros.
pub open spec fn decimal(n: nat) -> Seq<char>
    decreases n,
{
    if n < 10 {
        seq![digit_char(n)]
    } else {
        decimal(n / 10).push(digit_char(n % 10))
    }
}

fn digit_str(d: usize) -> (s: &'static str)
    requires
        d < 10,
    ensures
        s@ == seq![digit_char(d as nat)],
{
    proof {
        reveal_strlit("0");
        reveal_strlit("1");
        reveal_strlit("2");
        reveal_strlit("3");
        reveal_strlit("4");
        reveal_strlit("5");
        reveal_strlit("6");
        reveal_strlit("7");
        reveal_strlit("8");
        reveal_strlit("9");
    }
    let s = if d == 0 {
        "0"
    } else if d == 1 {
        "1"
    } else if d == 2 {
        "2"
    } else if d == 3 {
        "3"
    } else if d == 4 {
        "4"
    } else if d == 5 {
        "5"
    } else if d == 6 {
        "6"
    } else if d == 7 {
        "7"
    } else if d == 8 {
        "8"
    } else {
        "9"
    };
    s
}

fn decimal_string(n: usize) -> (s: String)
    ensures
        s@ == decimal(n as nat),
{
    let mut s = String::from_str(digit_str(n % 10));
    let mut rest: usize = n / 10;
    while rest > 0
        invariant
            rest > 0 ==> decimal(n as nat) == decimal(rest as nat) + s@,
            rest == 0 ==> decimal(n as nat) == s@,
        decreases rest,
    {
        let digit = String::from_str(digit_str(rest % 10));
        s = digit.concat(s.as_str());
        rest = rest / 10;
    }
    s
}

impl TryFromArrayError {
    /// What the error says: the length that was given and the shape that was
    /// asked for, in decimal.
    pub open spec fn message_spec(self) -> Seq<char> {
        "Cannot convert slice/array of len "@ + decimal(self->len as nat)
            + " into a matrix of size "@ + decimal(self->rows as nat) + "x"@ + decimal(
            self->cols as nat,
        )
    }

    /// The error in words.
    pub fn message(&self) -> (s: String)
        ensures
            s@ == self.message_spec(),
    {
        match self {
            TryFromArrayError::InvalidLen { len, cols, rows } => {
                let mut s = String::from_str("Cannot convert slice/array of len ");
                s.append(decimal_string(*len).as_str());
                s.append(" into a matrix of size ");
                s.append(decimal_string(*rows).as_str());
                s.append("x");
                s.append(decimal_string(*cols).as_str());
                s
            },
        }
    }
}

impl<const M: usize, const N: usize> View for ByteMatrix<M, N> {
    type V = Seq<Seq<u8>>;

    open spec fn view(&self) -> Seq<Seq<u8>> {
        rows_view(self.inner)
    }
}

/// Two matrices of one shape with the same view are the same matrix.
pub proof fn lemma_view_injective<const M: usize, const N: usize>(
    a: ByteMatrix<M, N>,
    b: ByteMatrix<M, N>,
)
    requires
        a@ == b@,
    ensures
        a == b,
{
    assert forall|i: int| 0 <= i < M implies a.inner[i] == b.inner[i] by {
        assert(a@[i] == b@[i]);
    }
    assert(a.inner =~= b.inner);
}

impl<const M: usize, const N: usize> ByteMatrix<M, N> {
    /// The matrix of zero bytes.
    pub fn new() -> (m: Self)
        ensures
            m@ == zeros(M as nat, N as nat),
    {
        let m = Self { inner: [[0u8; N]; M] };
        assert(m@ =~~= zeros(M as nat, N as nat));
        m
    }

    /// The matrix with rows and columns exchanged.
    pub fn transposed(self) -> (t: ByteMatrix<N, M>)
        ensures
            t@ == transpose(self@, N as nat),
    {
        let mut inner = [[0u8; M]; N];
        let mut i: usize = 0;
        while i < M
            invariant
                i <= M,
                forall|a: int, b: int| 0 <= a < i && 0 <= b < N ==> inner[b][a] == self.inner[a][b],
            decreases M - i,
        {
            let mut j: usize = 0;
            while j < N
                invariant
                    i < M,
                    j <= N,
                    forall|a: int, b: int|
                        0 <= a < i && 0 <= b < N ==> inner[b][a] == self.inner[a][b],
                    forall|b: int| 0 <= b < j ==> inner[b][i as int] == self.inner[i as int][b],
                decreases N - j,
            {
                inner[j][i] = self.inner[i][j];
                j += 1;
            }
            i += 1;
        }
        let t = ByteMatrix { inner };
        assert(t@ =~~= transpose(self@, N as nat));
        t
    }

    /// The row-by-column product of `self` and `other`, where the product of two
    /// entries is what `mul_fn` gives for the pair and the products of one
    /// row and one column are accumulated by `add_fn`, from zero and from
    /// left to right.
    pub fn mul<const P: usize, MulFn, AddFn>(
        self,
        other: ByteMatrix<N, P>,
        mul_fn: MulFn,
        add_fn: AddFn,
    ) -> (r: ByteMatrix<M, P>) where
        MulFn: Fn((u8, u8)) -> u8 + Copy,
        AddFn: Fn(u8, u8) -> u8 + Copy,

        requires
            forall|i: int, j: int, k: int|
                0 <= i < M && 0 <= j < P && 0 <= k < N ==> call_requires(
                    mul_fn,
                    ((#[trigger] self@[i][k], #[trigger] other@[k][j]),),
                ),
            forall|acc: u8, prod: u8| call_requires(add_fn, (acc, prod)),
        ensures
            forall|i: int, j: int|
                0 <= i < M && 0 <= j < P ==> dot_fold(
                    mul_fn,
                    add_fn,
                    self@[i],
                    column(other@, j),
                    N as nat,
                    #[trigger] r@[i][j],
                ),
    {
        let mut result = [[0u8; P]; M];
        let mut i: usize = 0;
        while i < M
            invariant
                i <= M,
                forall|a: int, b: int, c: int|
                    0 <= a < M && 0 <= b < P && 0 <= c < N ==> call_requires(
                        mul_fn,
                        ((#[trigger] self@[a][c], #[trigger] other@[c][b]),),
                    ),
                forall|acc: u8, prod: u8| call_requires(add_fn, (acc, prod)),
                forall|a: int, b: int|
                    0 <= a < i && 0 <= b < P ==> dot_fold(
                        mul_fn,
                        add_fn,
                        self@[a],
                        column(other@, b),
                        N as nat,
                        #[trigger] result[a][b],
                    ),
            decreases M - i,
        {
            let mut j: usize = 0;
            while j < P
                invariant
                    i < M,
                    j <= P,
                    forall|a: int, b: int, c: int|
                        0 <= a < M && 0 <= b < P && 0 <= c < N ==> call_requires(
                            mul_fn,
                            ((#[trigger] self@[a][c], #[trigger] other@[c][b]),),
                        ),
                    forall|acc: u8, prod: u8| call_requires(add_fn, (acc, prod)),
                    forall|a: int, b: int|
                        0 <= a < i && 0 <= b < P ==> dot_fold(
                            mul_fn,
                            add_fn,
                            self@[a],
                            column(other@, b),
                            N as nat,
                            #[trigger] result[a][b],
                        ),
                    forall|b: int|
                        0 <= b < j ==> dot_fold(
                            mul_fn,
                            add_fn,
                            self@[i as int],
                            column(other@, b),
                            N as nat,
                            #[trigger] result[i as int][b],
                        ),
                decreases P - j,
            {
                let ghost row = self@[i as int];
                let ghost col = column(other@, j as int);
                let mut acc: u8 = 0;
                let mut k: usize = 0;
                while k < N
                    invariant
                        i < M,
                        j < P,
                        k <= N,
                        row == self@[i as int],
                        col == column(other@, j as int),
                        forall|a: int, b: int, c: int|
                            0 <= a < M && 0 <= b < P && 0 <= c < N ==> call_requires(
                                mul_fn,
                                ((#[trigger] self@[a][c], #[trigger] other@[c][b]),),
                            ),
                        forall|acc: u8, prod: u8| call_requires(add_fn, (acc, prod)),
                        dot_fold(mul_fn, add_fn, row, col, k as nat, acc),
                    decreases N - k,
                {
                    let x = self.inner[i][k];
                    let y = other.inner[k][j];
                    assert(y == other@[k as int][j as int]);
                    let prod = mul_fn((x, y));
                    let next = add_fn(acc, prod);
                    assert(fold_step(mul_fn, add_fn, row[k + 1 - 1], col[k + 1 - 1], acc, prod, next));
                    acc = next;
                    k += 1;
                }
                result[i][j] = acc;
                j += 1;
            }
            i += 1;
        }
        let r = ByteMatrix { inner: result };
        r
    }

    /// The elementwise XOR of two matrices of one shape.
    pub fn xor(self, other: Self) -> (r: Self)
        ensures
            r@ == xor_rows(self@, other@),
    {
        let mut inner = [[0u8; N]; M];
        let mut i: usize = 0;
        while i < M
            invariant
                i <= M,
                forall|a: int| 0 <= a < i ==> inner[a]@ == xor_seq(self.inner[a]@, other.inner[a]@),
            decreases M - i,
        {
            inner[i] = crate::xor(self.inner[i], other.inner[i]);
            i += 1;
        }
        let r = ByteMatrix { inner };
        r
    }

    /// The matrix in which each entry is what `f` gives for the entry of `self`
    /// at that place.
    pub fn map<F>(self, f: F) -> (r: Self) where F: Fn(u8) -> u8 + Copy
        requires
            forall|i: int, j: int|
                0 <= i < M && 0 <= j < N ==> call_requires(f, (#[trigger] self@[i][j],)),
        ensures
            forall|i: int, j: int|
                0 <= i < M && 0 <= j < N ==> call_ensures(f, (self@[i][j],), #[trigger] r@[i][j]),
    {
        let mut inner = self.inner;
        assert forall|a: int, b: int| 0 <= a < M && 0 <= b < N implies call_requires(
            f,
            (#[trigger] self.inner[a][b],),
        ) by {
            assert(self@[a][b] == self.inner[a][b]);
        }
        let mut i: usize = 0;
        while i < M
            invariant
                i <= M,
                forall|a: int, b: int|
                    0 <= a < M && 0 <= b < N ==> call_requires(f, (#[trigger] self.inner[a][b],)),
                forall|a: int, b: int|
                    i <= a < M && 0 <= b < N ==> inner[a][b] == self.inner[a][b],
                forall|a: int, b: int|
                    0 <= a < i && 0 <= b < N ==> call_ensures(
                        f,
                        (self.inner[a][b],),
                        #[trigger] inner[a][b],
                    ),
            decreases M - i,
        {
            let mut j: usize = 0;
            while j < N
                invariant
                    i < M,
                    j <= N,
                    forall|a: int, b: int|
                        0 <= a < M && 0 <= b < N ==> call_requires(
                            f,
                            (#[trigger] self.inner[a][b],),
                        ),
                    forall|a: int, b: int|
                        i < a < M && 0 <= b < N ==> inner[a][b] == self.inner[a][b],
                    forall|b: int| j <= b < N ==> inner[i as int][b] == self.inner[i as int][b],
                    forall|a: int, b: int|
                        0 <= a < i && 0 <= b < N ==> call_ensures(
                            f,
                            (self.inner[a][b],),
                            #[trigger] inner[a][b],
                        ),
                    forall|b: int|
                        0 <= b < j ==> call_ensures(
                            f,
                            (self.inner[i as int][b],),
                            #[trigger] inner[i as int][b],
                        ),
                decreases N - j,
            {
                inner[i][j] = f(inner[i][j]);
                j += 1;
            }
            i += 1;
        }
        let r = ByteMatrix { inner };
        r
    }

    /// The rows, open to change in place: what the rows hold when the borrow
    /// ends is what the matrix then holds.
    pub fn rows_mut(&mut self) -> (rows: &mut [[u8; N]; M])
        ensures
            rows_view(*rows) == old(self)@,
            final(self)@ == rows_view(*final(rows)),
    {
        &mut self.inner
    }

    /// The entries row by row, as one vector.
    pub fn to_vec(&self) -> (v: Vec<u8>)
        ensures
            v@ == flatten(self@, N as nat),
    {
        let mut v: Vec<u8> = Vec::new();
        let mut i: usize = 0;
        while i < M
            invariant
                i <= M,
                v@.len() == i * N,
                forall|k: int|
                    0 <= k < v@.len() ==> v@[k] == self.inner[k / (N as int)][k % (N as int)],
            decreases M - i,
        {
            let mut j: usize = 0;
            while j < N
                invariant
                    i < M,
                    j <= N,
                    v@.len() == i * N + j,
                    forall|k: int|
                        0 <= k < v@.len() ==> v@[k] == self.inner[k / (N as int)][k % (N as int)],
                decreases N - j,
            {
                proof {
                    lemma_fundamental_div_mod_converse(i * N + j, N as int, i as int, j as int);
                }
                v.push(self.inner[i][j]);
                j += 1;
            }
            assert(i * N + N == (i + 1) * N) by (nonlinear_arith);
            i += 1;
        }
        assert forall|k: int| 0 <= k < v@.len() implies v@[k] == flatten(self@, N as nat)[k] by {
            assert(0 <= k / (N as int) < M) by (nonlinear_arith)
                requires
                    0 <= k < M * N,
            ;
        }
        v
    }

    /// The entries row by row in lowercase hexadecimal, two digits a byte.
    pub fn to_hex(&self) -> (s: String)
        ensures
            s@ == hex_lower(flatten(self@, N as nat)),
    {
        let bytes = self.to_vec();
        hex_encode(&bytes)
    }

    /// What `try_from` gives for a flat run of bytes: the matrix whose rows are
    /// consecutive runs of `N` bytes if there are `M * N` of them, and else the
    /// error that names the three numbers.
    pub open spec fn spec_from_flat(bytes: Seq<u8>) -> Result<Self, TryFromArrayError> {
        if bytes.len() == M * N {
            Ok(choose|m: Self| m@ == unflatten(bytes, M as nat, N as nat))
        } else {
            Err(TryFromArrayError::InvalidLen { len: bytes.len() as usize, cols: N, rows: M })
        }
    }

    fn from_flat(value: &[u8]) -> (r: Result<Self, TryFromArrayError>)
        ensures
            r == Self::spec_from_flat(value@),
            value@.len() == M * N ==> r is Ok && r->Ok_0@ == unflatten(
                value@,
                M as nat,
                N as nat,
            ),
    {
        let fits = match M.checked_mul(N) {
            Some(size) => size == value.len(),
            None => false,
        };
        if !fits {
            return Err(TryFromArrayError::InvalidLen { len: value.len(), rows: M, cols: N });
        }
        let mut matrix = ByteMatrix::new();
        let mut i: usize = 0;
        while i < M
            invariant
                i <= M,
                value@.len() == M * N <= usize::MAX,
                forall|a: int, b: int|
                    0 <= a < i && 0 <= b < N ==> matrix.inner[a][b] == value@[a * N + b],
            decreases M - i,
        {
            let mut j: usize = 0;
            while j < N
                invariant
                    i < M,
                    j <= N,
                    value@.len() == M * N <= usize::MAX,
                    forall|a: int, b: int|
                        0 <= a < i && 0 <= b < N ==> matrix.inner[a][b] == value@[a * N + b],
                    forall|b: int| 0 <= b < j ==> matrix.inner[i as int][b] == value@[i * N + b],
                decreases N - j,
            {
                assert(0 <= i * N && i * N + j < M * N) by (nonlinear_arith)
                    requires
                        i < M,
                        j < N,
                ;
                matrix.inner[i][j] = value[i * N + j];
                j += 1;
            }
            i += 1;
        }
        proof {
            assert(matrix@ =~~= unflatten(value@, M as nat, N as nat));
            lemma_view_injective(matrix, choose|m: Self| m@ == unflatten(value@, M as nat, N as nat));
        }
        Ok(matrix)
    }
}

impl<const M: usize, const N: usize> From<[[u8; N]; M]> for ByteMatrix<M, N> {
    /// The matrix whose rows are the arrays of `arr`.
    fn from(arr: [[u8; N]; M]) -> (m: Self) {
        Self { inner: arr }
    }
}

impl<const M: usize, const N: usize> vstd::std_specs::convert::FromSpecImpl<[[u8; N]; M]> for ByteMatrix<M, N> {
    open spec fn obeys_from_spec() -> bool {
        true
    }

    open spec fn from_spec(arr: [[u8; N]; M]) -> Self {
        ByteMatrix { inner: arr }
    }
}

impl<const M: usize, const N: usize, const S: usize> TryFrom<[u8; S]> for ByteMatrix<M, N> {
    type Error = TryFromArrayError;

    /// The matrix whose rows are consecutive runs of `N` bytes of `value`, if
    /// it holds `M * N` bytes; else the error with the three numbers.
    fn try_from(value: [u8; S]) -> (r: Result<Self, TryFromArrayError>)
        ensures
            S == M * N ==> r is Ok && r->Ok_0@ == unflatten(value@, M as nat, N as nat),
            S != M * N ==> r == Err::<Self, TryFromArrayError>(
                TryFromArrayError::InvalidLen { len: S, cols: N, rows: M },
            ),
    {
        Self::from_flat(value.as_slice())
    }
}

impl<const M: usize, const N: usize, const S: usize> vstd::std_specs::convert::TryFromSpecImpl<[u8; S]> for ByteMatrix<M, N> {
    open spec fn obeys_try_from_spec() -> bool {
        true
    }

    open spec fn try_from_spec(value: [u8; S]) -> Result<Self, TryFromArrayError> {
        Self::spec_from_flat(value@)
    }
}

impl<const M: usize, const N: usize> TryFrom<&[u8]> for ByteMatrix<M, N> {
    type Error = TryFromArrayError;

    /// The matrix whose rows are consecutive runs of `N` bytes of `value`, if
    /// it holds `M * N` bytes; else the error with the three numbers.
    fn try_from(value: &[u8]) -> (r: Result<Self, TryFromArrayError>)
        ensures
            value@.len() == M * N ==> r is Ok && r->Ok_0@ == unflatten(
                value@,
                M as nat,
                N as nat,
            ),
            value@.len() != M * N ==> r == Err::<Self, TryFromArrayError>(
                TryFromArrayError::InvalidLen { len: value@.len() as usize, cols: N, rows: M },
            ),
    {
        Self::from_flat(value)
    }
}

impl<const M: usize, const N: usize> vstd::std_specs::convert::TryFromSpecImpl<&[u8]> for ByteMatrix<M, N> {
    open spec fn obeys_try_from_spec() -> bool {
        true
    }

    open spec fn try_from_spec(value: &[u8]) -> Result<Self, TryFromArrayError> {
        Self::spec_from_flat(value@)
    }
}

/// Transposing twice gives the matrix back, whatever its shape; a shape
/// without rows or without columns is no exception.
pub proof fn lemma_transpose_involutive<const M: usize, const N: usize>(m: ByteMatrix<M, N>)
    ensures
        transpose(transpose(m@, N as nat), M as nat) == m@,
{
    assert(transpose(transpose(m@, N as nat), M as nat) =~~= m@);
}

/// A matrix XORed with itself is the zero matrix.
pub proof fn lemma_xor_self_is_zero<const M: usize, const N: usize>(m: ByteMatrix<M, N>)
    ensures
        xor_rows(m@, m@) == zeros(M as nat, N as nat),
{
    assert forall|x: u8| #[trigger] (x ^ x) == 0 by {
        assert(x ^ x == 0) by (bit_vector);
    }
    assert(xor_rows(m@, m@) =~~= zeros(M as nat, N as nat));
}

/// XORing with the same matrix twice gives the first matrix back.
pub proof fn lemma_xor_twice_is_identity<const M: usize, const N: usize>(
    a: ByteMatrix<M, N>,
    b: ByteMatrix<M, N>,
)
    ensures
        xor_rows(xor_rows(a@, b@), b@) == a@,
{
    assert forall|x: u8, y: u8| #[trigger] ((x ^ y) ^ y) == x by {
        assert((x ^ y) ^ y == x) by (bit_vector);
    }
    assert(xor_rows(xor_rows(a@, b@), b@) =~~= a@);
}

} // verus!

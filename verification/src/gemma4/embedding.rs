//! Look-ups in an embedding table that stays quantized: only the rows that
//! are asked for are unpacked.

use crate::dtype::GgmlDType;
use crate::error::{Error, Op};
use crate::ops::scalar::copy_dims;
use vstd::prelude::*;

verus! {

/// A quantized table of `rows` rows of `cols` elements.
#[derive(Clone, Copy, Debug)]
pub struct QEmbedding {
    dtype: GgmlDType,
    rows: usize,
    cols: usize,
    bytes_per_row: usize,
}

/// The bytes of a row, from `start` to `end`.
#[derive(Clone, Copy, Debug, PartialEq, Eq, Structural)]
pub struct RowBytes {
    pub start: usize,
    pub end: usize,
}

/// Bytes of a row of `cols` elements of type `dtype`.
pub open spec fn row_bytes(dtype: GgmlDType, cols: nat) -> nat {
    (cols / dtype.spec_block_size()) * dtype.spec_type_size()
}

/// Why a tensor of the given shape is no table, if it is not; the first of
/// several reasons counts.
pub open spec fn table_refusal(dims: Seq<usize>, dtype: GgmlDType) -> Option<Error> {
    if dims.len() != 2 {
        Some(Error::BadRank { op: Op::Embedding, rank: dims.len() as usize })
    } else if dims[1] as nat % dtype.spec_block_size() != 0 {
        Some(Error::PartialRow { cols: dims[1], block: dtype.spec_block_size() as usize })
    } else {
        None
    }
}

/// Why a tensor of the given shape whose storage has `bytes` bytes is no
/// table, if it is not; the first of several reasons counts.
pub open spec fn stored_table_refusal(dims: Seq<usize>, dtype: GgmlDType, bytes: u64) -> Option<
    Error,
> {
    match table_refusal(dims, dtype) {
        Some(e) => Some(e),
        None => {
            let expected = dims[0] * row_bytes(dtype, dims[1] as nat);
            if bytes != expected {
                Some(Error::StorageSize { expected: expected as u64, got: bytes })
            } else {
                None
            }
        },
    }
}

/// The table's bytes can be addressed.
pub open spec fn table_fits(dims: Seq<usize>, dtype: GgmlDType) -> bool {
    dims.len() == 2 ==> {
        &&& row_bytes(dtype, dims[1] as nat) <= usize::MAX
        &&& dims[0] * row_bytes(dtype, dims[1] as nat) <= usize::MAX
        &&& dims[0] * row_bytes(dtype, dims[1] as nat) <= u64::MAX
    }
}

impl QEmbedding {
    /// Rows of the table.
    pub closed spec fn spec_rows(&self) -> nat {
        self.rows as nat
    }

    /// Elements of a row.
    pub closed spec fn spec_cols(&self) -> nat {
        self.cols as nat
    }

    /// Block type of the table.
    pub closed spec fn spec_dtype(&self) -> GgmlDType {
        self.dtype
    }

    /// Bytes of a row.
    pub open spec fn spec_bytes_per_row(&self) -> nat {
        row_bytes(self.spec_dtype(), self.spec_cols())
    }

    /// The table's bytes can be addressed, and a row is a whole number of
    /// blocks.
    pub closed spec fn wf(&self) -> bool {
        &&& self.bytes_per_row == row_bytes(self.dtype, self.cols as nat)
        &&& self.rows * self.bytes_per_row <= usize::MAX
        &&& self.cols as nat % self.dtype.spec_block_size() == 0
    }

    /// The table of a tensor of the given shape.
    pub fn new(dims: &Vec<usize>, dtype: GgmlDType) -> (r: Result<QEmbedding, Error>)
        requires
            table_fits(dims@, dtype),
        ensures
            match r {
                Ok(t) => {
                    &&& table_refusal(dims@, dtype) is None
                    &&& t.wf()
                    &&& t.spec_rows() == dims@[0] && t.spec_cols() == dims@[1] && t.spec_dtype()
                        == dtype
                },
                Err(e) => table_refusal(dims@, dtype) == Some(e),
            },
    {
        if dims.len() != 2 {
            return Err(Error::BadRank { op: Op::Embedding, rank: dims.len() });
        }
        let (rows, cols): (usize, usize) = (dims[0], dims[1]);
        let block: usize = dtype.block_size();
        if cols % block != 0 {
            return Err(Error::PartialRow { cols, block });
        }
        let bytes_per_row: usize = cols / block * dtype.type_size();
        Ok(QEmbedding { dtype, rows, cols, bytes_per_row })
    }

    /// The table of a tensor of the given shape whose storage has
    /// `storage_bytes` bytes, which must be those of all rows.
    pub fn with_storage(dims: &Vec<usize>, dtype: GgmlDType, storage_bytes: u64) -> (r: Result<
        QEmbedding,
        Error,
    >)
        requires
            table_fits(dims@, dtype),
        ensures
            match r {
                Ok(t) => {
                    &&& stored_table_refusal(dims@, dtype, storage_bytes) is None
                    &&& t.wf()
                    &&& t.spec_rows() == dims@[0] && t.spec_cols() == dims@[1] && t.spec_dtype()
                        == dtype
                },
                Err(e) => stored_table_refusal(dims@, dtype, storage_bytes) == Some(e),
            },
    {
        match QEmbedding::new(dims, dtype) {
            Ok(t) => {
                let expected: u64 = t.rows as u64 * t.bytes_per_row as u64;
                if storage_bytes != expected {
                    return Err(Error::StorageSize { expected, got: storage_bytes });
                }
                Ok(t)
            },
            Err(e) => Err(e),
        }
    }

    /// The bytes of row `id` in a storage of `len` bytes.
    pub open spec fn spec_row(&self, id: u32, len: nat) -> Result<RowBytes, Error> {
        let start = id * self.spec_bytes_per_row();
        let end = start + self.spec_bytes_per_row();
        if id >= self.spec_rows() {
            Err(Error::IndexOutOfRange { index: id, rows: self.spec_rows() as usize })
        } else if end > len {
            Err(
                Error::RowOutOfBounds {
                    start: start as usize,
                    end: end as usize,
                    len: len as usize,
                },
            )
        } else {
            Ok(RowBytes { start: start as usize, end: end as usize })
        }
    }

    /// The bytes of row `id` in a storage of `len` bytes.
    pub fn row(&self, id: u32, len: usize) -> (r: Result<RowBytes, Error>)
        requires
            self.wf(),
        ensures
            r == self.spec_row(id, len as nat),
            r matches Ok(b) ==> b.start <= b.end <= len && b.end - b.start
                == self.spec_bytes_per_row(),
    {
        let i: usize = id as usize;
        if i >= self.rows {
            return Err(Error::IndexOutOfRange { index: id, rows: self.rows });
        }
        proof {
            let (a, n, w) = (i as int, self.rows as int, self.bytes_per_row as int);
            assert(0 <= a * w && a * w + w <= n * w) by (nonlinear_arith)
                requires
                    0 <= a < n,
                    0 <= w,
            ;
        }
        let start: usize = i * self.bytes_per_row;
        let end: usize = start + self.bytes_per_row;
        if end > len {
            return Err(Error::RowOutOfBounds { start, end, len });
        }
        Ok(RowBytes { start, end })
    }

    /// The first of the ids from `from` on whose row cannot be had, and why.
    pub open spec fn first_missing(&self, ids: Seq<u32>, len: nat, from: nat) -> Option<Error>
        decreases ids.len() - from,
    {
        if from >= ids.len() {
            None
        } else {
            match self.spec_row(ids[from as int], len) {
                Err(e) => Some(e),
                Ok(_) => self.first_missing(ids, len, from + 1),
            }
        }
    }

    /// The rows of the given ids in a storage of `len` bytes, in the order of
    /// the ids, and the shape of the result: that of the index tensor with one
    /// more axis for the row's elements.
    pub fn forward(&self, ids: &[u32], dims: &Vec<usize>, len: usize) -> (r: Result<
        (Vec<RowBytes>, Vec<usize>),
        Error,
    >)
        requires
            self.wf(),
        ensures
            match r {
                Ok((rows, shape)) => {
                    &&& self.first_missing(ids@, len as nat, 0) is None
                    &&& rows@.len() == ids@.len()
                    &&& forall|i: int|
                        0 <= i < ids@.len() ==> self.spec_row(ids@[i], len as nat) == Ok::<
                            RowBytes,
                            Error,
                        >(#[trigger] rows@[i])
                    &&& shape@ == dims@.push(self.spec_cols() as usize)
                },
                Err(e) => self.first_missing(ids@, len as nat, 0) == Some(e),
            },
    {
        let mut rows: Vec<RowBytes> = Vec::new();
        let mut i: usize = 0;
        while i < ids.len()
            invariant
                0 <= i <= ids@.len(),
                self.wf(),
                self.first_missing(ids@, len as nat, 0) == self.first_missing(
                    ids@,
                    len as nat,
                    i as nat,
                ),
                rows@.len() == i,
                forall|j: int|
                    0 <= j < i ==> self.spec_row(ids@[j], len as nat) == Ok::<RowBytes, Error>(
                        #[trigger] rows@[j],
                    ),
            decreases ids.len() - i,
        {
            match self.row(ids[i], len) {
                Ok(b) => {
                    rows.push(b);
                },
                Err(e) => {
                    return Err(e);
                },
            }
            i = i + 1;
        }
        let mut shape: Vec<usize> = copy_dims(dims);
        shape.push(self.cols);
        Ok((rows, shape))
    }
}

/// In a storage of the right size every row can be had, and the rows lie one
/// behind another and fill it.
pub proof fn law_rows_tile_storage(t: QEmbedding, id: u32)
    requires
        t.wf(),
        id < t.spec_rows(),
    ensures
        ({
            let len = t.spec_rows() * t.spec_bytes_per_row();
            let r = t.spec_row(id, len);
            &&& r is Ok
            &&& r->Ok_0.start == id * t.spec_bytes_per_row()
            &&& r->Ok_0.end == (id + 1) * t.spec_bytes_per_row()
            &&& id + 1 == t.spec_rows() ==> r->Ok_0.end == len
        }),
{
    let (i, n, w) = (id as int, t.spec_rows() as int, t.spec_bytes_per_row() as int);
    assert(0 <= i * w && i * w + w == (i + 1) * w && (i + 1) * w <= n * w) by (nonlinear_arith)
        requires
            0 <= i < n,
            0 <= w,
    ;
}

/// The rows of different ids have no byte in common.
pub proof fn law_rows_disjoint(t: QEmbedding, a: u32, b: u32)
    requires
        t.wf(),
        a < b < t.spec_rows(),
    ensures
        ({
            let len = t.spec_rows() * t.spec_bytes_per_row();
            t.spec_row(a, len)->Ok_0.end <= t.spec_row(b, len)->Ok_0.start
        }),
{
    law_rows_tile_storage(t, a);
    law_rows_tile_storage(t, b);
    let (i, j, w) = (a as int, b as int, t.spec_bytes_per_row() as int);
    assert((i + 1) * w <= j * w) by (nonlinear_arith)
        requires
            i + 1 <= j,
            0 <= w,
    ;
}

} // verus!

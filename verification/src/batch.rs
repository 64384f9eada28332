use vstd::prelude::*;

verus! {

/// Most image ids bound into one SQL statement, safely below SQLite's
/// limit on host parameters.
pub const BATCH_SQL_VARIABLE_LIMIT_SAFE: usize = 900;

/// Number of chunks of at most [`BATCH_SQL_VARIABLE_LIMIT_SAFE`] ids that
/// `len` ids make.
pub open spec fn chunk_count(len: nat) -> nat {
    ((len + 899) / 900) as nat
}

/// Chunk `k` of `ids`: ids `900 k` up to `900 (k + 1)`, or to the end.
pub open spec fn id_chunk<A>(ids: Seq<A>, k: int) -> Seq<A> {
    let start = 900 * k;
    let end = if 900 * (k + 1) < ids.len() {
        900 * (k + 1)
    } else {
        ids.len() as int
    };
    ids.subrange(start, end)
}

/// `handler` was called on chunk `k` of `ids` and succeeded there.
pub open spec fn chunk_succeeded<F: Fn(&[String]) -> Result<(), String>>(handler: F, ids: Seq<String>, k: int) -> bool {
    exists|c: &[String]| c@ == id_chunk(ids, k) && #[trigger] handler.ensures((c,), Ok(()))
}

/// `handler` was called on chunk `k` of `ids` and failed there with `e`.
pub open spec fn chunk_failed<F: Fn(&[String]) -> Result<(), String>>(handler: F, ids: Seq<String>, k: int, e: String) -> bool {
    exists|c: &[String]| c@ == id_chunk(ids, k) && #[trigger] handler.ensures((c,), Err(e))
}

/// Calls `handler` on the ids in chunks of at most
/// [`BATCH_SQL_VARIABLE_LIMIT_SAFE`], in order, and stops at the first
/// error, which it returns: every chunk before the failing one succeeded.
pub fn for_each_image_id_chunk<F: Fn(&[String]) -> Result<(), String>>(
    image_ids: &[String],
    handler: F,
) -> (r: Result<(), String>)
    requires
        forall|c: &[String]| #[trigger] handler.requires((c,)),
    ensures
        r is Ok ==> forall|k: int|
            0 <= k < chunk_count(image_ids@.len()) ==> #[trigger] chunk_succeeded(handler, image_ids@, k),
        r matches Err(e) ==> exists|k: int|
            0 <= k < chunk_count(image_ids@.len()) && #[trigger] chunk_failed(handler, image_ids@, k, e)
                && forall|j: int| 0 <= j < k ==> #[trigger] chunk_succeeded(handler, image_ids@, j),
{
    let len = image_ids.len();
    let mut start: usize = 0;
    let mut k: usize = 0;
    while start < len
        invariant
            len == image_ids@.len(),
            start <= len,
            start < len ==> start == 900 * k,
            start < len ==> k < chunk_count(len as nat),
            start == len ==> k == chunk_count(len as nat),
            forall|j: int| 0 <= j < k ==> #[trigger] chunk_succeeded(handler, image_ids@, j),
            forall|c: &[String]| #[trigger] handler.requires((c,)),
        decreases len - start,
    {
        let end = if len - start > BATCH_SQL_VARIABLE_LIMIT_SAFE {
            start + BATCH_SQL_VARIABLE_LIMIT_SAFE
        } else {
            len
        };
        let chunk = vstd::slice::slice_subrange(image_ids, start, end);
        proof {
            assert(chunk@ == id_chunk(image_ids@, k as int));
        }
        let res = handler(chunk);
        let ghost unit_ok = res;
        match res {
            Ok(u) => {
                proof {
                    assert(unit_ok == Ok::<(), String>(u));
                    assert(u == ());
                }
            },
            Err(e) => {
                proof {
                    assert(handler.ensures((chunk,), Err(e)));
                    assert(chunk@ == id_chunk(image_ids@, k as int));
                    assert(chunk_failed(handler, image_ids@, k as int, e));
                }
                return Err(e);
            },
        }
        proof {
            assert(unit_ok == Ok::<(), String>(()));
            assert(handler.ensures((chunk,), Ok(())));
            assert(chunk_succeeded(handler, image_ids@, k as int));
            assert(chunk@ == id_chunk(image_ids@, k as int));
            let kk = k as int;
            let l = len as int;
            if end < len {
                assert(end == 900 * (kk + 1));
                assert(kk + 1 < chunk_count(len as nat)) by (nonlinear_arith)
                    requires
                        900 * (kk + 1) < l,
                        chunk_count(len as nat) == (l + 899) / 900,
                ;
            } else {
                assert(kk + 1 == chunk_count(len as nat)) by (nonlinear_arith)
                    requires
                        900 * kk < l,
                        l <= 900 * kk + 900,
                        chunk_count(len as nat) == (l + 899) / 900,
                ;
            }
        }
        start = end;
        k = k + 1;
    }
    Ok(())
}


/// The chunks split the ids without loss: each chunk holds between one and
/// 900 ids, and id `i` is entry `i % 900` of chunk `i / 900`.
pub proof fn law_chunks_partition<A>(ids: Seq<A>)
    ensures
        forall|k: int| 0 <= k < chunk_count(ids.len()) ==> 1 <= (#[trigger] id_chunk(ids, k)).len() <= 900,
        forall|i: int| 0 <= i < ids.len() ==> i / 900 < chunk_count(ids.len()) && (#[trigger] ids[i]) == id_chunk(ids, i / 900)[i % 900],
{
    let l = ids.len() as int;
    assert forall|k: int| 0 <= k < chunk_count(ids.len()) implies 1 <= (#[trigger] id_chunk(ids, k)).len() <= 900 by {
        assert(900 * k < l) by (nonlinear_arith)
            requires
                0 <= k < (l + 899) / 900,
                l >= 0,
        ;
    }
    assert forall|i: int| 0 <= i < ids.len() implies i / 900 < chunk_count(ids.len()) && (#[trigger] ids[i]) == id_chunk(ids, i / 900)[i % 900] by {
        let k = i / 900;
        assert(900 * k <= i < 900 * (k + 1)) by (nonlinear_arith)
            requires
                k == i / 900,
                i >= 0,
        ;
        assert(k < (l + 899) / 900) by (nonlinear_arith)
            requires
                900 * k <= i,
                i < l,
                k >= 0,
        ;
        assert(i % 900 == i - 900 * k) by (nonlinear_arith)
            requires
                k == i / 900,
                i >= 0,
        ;
    }
}

} // verus!

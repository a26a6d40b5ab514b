use vstd::prelude::*;

use crate::text::{has_prefix, strip_prefix};

verus! {

/// The file path of a database URL: the URL without a leading `sqlite://`.
pub open spec fn sqlite_path_of(url: Seq<char>) -> Seq<char> {
    if has_prefix(url, "sqlite://"@) {
        url.subrange("sqlite://"@.len() as int, url.len() as int)
    } else {
        url
    }
}

/// The path that the SQLite connection opens for `BOT_DATABASE_URL`.
pub fn sqlite_path(url: &str) -> (r: &str)
    ensures
        r@ == sqlite_path_of(url@),
{
    match strip_prefix(url, "sqlite://") {
        Some(p) => p,
        None => url,
    }
}

/// A `sqlite://` URL opens the path written after the scheme; any other
/// text is taken as the path itself.
pub proof fn lemma_sqlite_path(path: Seq<char>, url: Seq<char>)
    ensures
        sqlite_path_of("sqlite://"@ + path) == path,
        !has_prefix(url, "sqlite://"@) ==> sqlite_path_of(url) == url,
{
    let u = "sqlite://"@ + path;
    assert(u.subrange(0, "sqlite://"@.len() as int) =~= "sqlite://"@);
    assert(u.subrange("sqlite://"@.len() as int, u.len() as int) =~= path);
}

/// The `LIKE` pattern that finds names holding `keyword`.
pub fn like_pattern(keyword: &str) -> (r: String)
    ensures
        r@ == "%"@ + keyword@ + "%"@,
{
    let mut r = String::from_str("%");
    r.append(keyword);
    r.append("%");
    r
}

/// The largest number of files that a search returns.
pub const SEARCH_LIMIT: usize = 500;

/// The rows of a query, in order, or the first error among them.
pub open spec fn first_error<T, E>(rows: Seq<Result<T, E>>) -> Option<E>
    decreases rows.len(),
{
    if rows.len() == 0 {
        None
    } else {
        match rows[0] {
            Err(e) => Some(e),
            Ok(_) => first_error(rows.drop_first()),
        }
    }
}

pub open spec fn oks<T, E>(rows: Seq<Result<T, E>>) -> Seq<T>
    decreases rows.len(),
{
    if rows.len() == 0 {
        Seq::empty()
    } else {
        match rows[0] {
            Err(_) => oks(rows.drop_first()),
            Ok(t) => seq![t] + oks(rows.drop_first()),
        }
    }
}

/// Where no row failed, the query gives every row, in order.
pub proof fn lemma_rows_all_ok<T, E>(rows: Seq<Result<T, E>>)
    requires
        forall|i: int| 0 <= i < rows.len() ==> rows[i] is Ok,
    ensures
        first_error(rows) is None,
        oks(rows).len() == rows.len(),
        forall|i: int| 0 <= i < rows.len() ==> rows[i] == Ok::<T, E>(#[trigger] oks(rows)[i]),
    decreases rows.len(),
{
    if rows.len() > 0 {
        let rest = rows.drop_first();
        lemma_rows_all_ok(rest);
        let t = rows[0]->Ok_0;
        assert(oks(rows) == seq![t] + oks(rest));
        assert forall|i: int| 0 <= i < rows.len() implies rows[i] == Ok::<T, E>(
            #[trigger] oks(rows)[i],
        ) by {
            if i > 0 {
                assert(rows[i] == rest[i - 1]);
            }
        }
    }
}

/// Where row `k` is the first that failed, the query gives its error.
pub proof fn lemma_first_failed_row<T, E>(rows: Seq<Result<T, E>>, k: int)
    requires
        0 <= k < rows.len(),
        rows[k] is Err,
        forall|i: int| 0 <= i < k ==> rows[i] is Ok,
    ensures
        first_error(rows) == Some(rows[k]->Err_0),
    decreases k,
{
    if k > 0 {
        let rest = rows.drop_first();
        assert forall|i: int| 0 <= i < k - 1 implies rest[i] is Ok by {
            assert(rest[i] == rows[i + 1]);
        }
        lemma_first_failed_row(rest, k - 1);
    }
}

/// Gathers the rows of a query: all of them where none failed, else the
/// first error.
pub fn collect_rows<T, E>(rows: Vec<Result<T, E>>) -> (r: Result<Vec<T>, E>)
    ensures
        match first_error(rows@) {
            Some(e) => r == Err::<Vec<T>, E>(e),
            None => r matches Ok(v) && v@ == oks(rows@),
        },
{
    let ghost all = rows@;
    let mut rest = rows;
    let mut out: Vec<T> = Vec::new();
    while rest.len() > 0
        invariant
            first_error(all) is None ==> first_error(rest@) is None && oks(all) == out@ + oks(
                rest@,
            ),
            first_error(all) == first_error(rest@),
            all == rows@,
        decreases rest.len(),
    {
        let ghost before = rest@;
        let row = rest.remove(0);
        assert(rest@ =~= before.drop_first());
        match row {
            Ok(t) => {
                let ghost prev = out@;
                out.push(t);
                assert(prev + oks(before) =~= out@ + oks(rest@)) by {
                    assert(oks(before) == seq![t] + oks(rest@));
                }
            },
            Err(e) => {
                assert(before[0] == Err::<T, E>(e));
                assert(first_error(before) == Some(e));
                return Err(e);
            },
        }
    }
    assert(out@ + oks(rest@) =~= out@);
    Ok(out)
}

/// The row of a lookup by key: the first row, or its error; `None` where
/// the query found nothing.
pub fn first_row<T, E>(rows: Vec<Result<T, E>>) -> (r: Result<Option<T>, E>)
    ensures
        rows@.len() == 0 ==> r == Ok::<Option<T>, E>(None),
        rows@.len() > 0 ==> match rows@[0] {
            Ok(t) => r == Ok::<Option<T>, E>(Some(t)),
            Err(e) => r == Err::<Option<T>, E>(e),
        },
{
    let mut rows = rows;
    if rows.len() == 0 {
        return Ok(None);
    }
    match rows.remove(0) {
        Ok(t) => Ok(Some(t)),
        Err(e) => Err(e),
    }
}

} // verus!

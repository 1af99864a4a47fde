use vstd::prelude::*;

verus! {

/// The rows of `rows` from position `offset` on, at most `limit` of them.
pub open spec fn window<U>(rows: Seq<U>, offset: int, limit: int) -> Seq<U>
    recommends
        0 <= offset,
        0 <= limit,
{
    let start = if offset < rows.len() {
        offset
    } else {
        rows.len() as int
    };
    let end = if start + limit < rows.len() {
        start + limit
    } else {
        rows.len() as int
    };
    rows.subrange(start, end)
}

/// Why a paginated query was not run.
#[derive(Clone, Copy, Debug, PartialEq, Eq, Structural)]
pub enum QueryError {
    /// The limit is below zero.
    NegativeLimit,
    /// The offset is below zero.
    NegativeOffset,
}

/// One step in writing out a paginated query.
#[derive(Clone, Copy, Debug, PartialEq, Eq)]
pub enum SqlPart {
    /// Literal SQL text.
    Sql(&'static str),
    /// The inner query, written out by itself.
    Inner,
    /// The limit, bound as a 64-bit integer parameter.
    Limit,
    /// The offset, bound as a 64-bit integer parameter.
    Offset,
}

/// Gives every query the method that wraps it into a paginated one.
pub trait OffsetLimit: Sized {
    /// Wraps the query so that it yields the rows from `offset` on, at most
    /// `limit` of them, and with each the count of all rows.
    fn offset_and_limit(self, offset: i64, limit: i64) -> (r: OffsetLimited<Self>)
        ensures
            r.query == self,
            r.offset == offset,
            r.limit == limit,
    ;
}

impl<T> OffsetLimit for T {
    fn offset_and_limit(self, offset: i64, limit: i64) -> (r: OffsetLimited<Self>) {
        OffsetLimited { query: self, limit, offset }
    }
}

/// A query together with the window of its rows that is asked for.
#[derive(Debug, Clone, Copy)]
pub struct OffsetLimited<T> {
    pub query: T,
    pub offset: i64,
    pub limit: i64,
}

impl<T> OffsetLimited<T> {
    /// The steps that write this query out as SQL: the inner query becomes a
    /// subselect, a window function counts all its rows beside each row, and
    /// limit and offset are bound, in that order.
    pub fn walk_ast(&self) -> (parts: Vec<SqlPart>)
        ensures
            parts@ == seq![
                SqlPart::Sql("SELECT *, COUNT(*) OVER () FROM ("),
                SqlPart::Inner,
                SqlPart::Sql(") t LIMIT "),
                SqlPart::Limit,
                SqlPart::Sql(" OFFSET "),
                SqlPart::Offset,
            ],
    {
        let mut parts: Vec<SqlPart> = Vec::new();
        parts.push(SqlPart::Sql("SELECT *, COUNT(*) OVER () FROM ("));
        parts.push(SqlPart::Inner);
        parts.push(SqlPart::Sql(") t LIMIT "));
        parts.push(SqlPart::Limit);
        parts.push(SqlPart::Sql(" OFFSET "));
        parts.push(SqlPart::Offset);
        assert(parts@ =~= seq![
            SqlPart::Sql("SELECT *, COUNT(*) OVER () FROM ("),
            SqlPart::Inner,
            SqlPart::Sql(") t LIMIT "),
            SqlPart::Limit,
            SqlPart::Sql(" OFFSET "),
            SqlPart::Offset,
        ]);
        parts
    }
}

/// Parts a loaded page from the count that each of its rows carries: the
/// rows in order, and the count of the first row, or zero for an empty page.
pub fn split_counted<U>(results: Vec<(U, i64)>) -> (r: (Vec<U>, i64))
    ensures
        r.0@ == results@.map_values(|x: (U, i64)| x.0),
        r.1 == if results@.len() == 0 {
            0
        } else {
            results@[0].1
        },
{
    let total: i64 = if results.len() > 0 {
        results[0].1
    } else {
        0
    };
    let mut records: Vec<U> = Vec::new();
    let ghost all = results@;
    for x in it: results
        invariant
            it.seq() == all,
            records@ == all.take(it.index() as int).map_values(|x: (U, i64)| x.0),
    {
        records.push(x.0);
        assert(all.take(it.index() + 1).map_values(|x: (U, i64)| x.0) =~= all.take(
            it.index() as int,
        ).map_values(|x: (U, i64)| x.0).push(x.0));
    }
    assert(all.take(all.len() as int) =~= all);
    (records, total)
}

impl<U> OffsetLimited<Vec<U>> {
    /// Runs the paginated query on rows held in memory: the rows of the
    /// window, each with the count of all rows. A limit or an offset below
    /// zero is refused. The count column is 64 bits wide, so the rows must
    /// not be more than it can count.
    pub fn load(self) -> (r: Result<Vec<(U, i64)>, QueryError>)
        requires
            self.query@.len() <= i64::MAX,
        ensures
            self.limit < 0 ==> r == Err::<Vec<(U, i64)>, QueryError>(QueryError::NegativeLimit),
            self.limit >= 0 && self.offset < 0 ==> r == Err::<Vec<(U, i64)>, QueryError>(
                QueryError::NegativeOffset,
            ),
            self.limit >= 0 && self.offset >= 0 ==> r is Ok && r.unwrap()@ == window(
                self.query@,
                self.offset as int,
                self.limit as int,
            ).map_values(|u: U| (u, self.query@.len() as i64)),
    {
        if self.limit < 0 {
            return Err(QueryError::NegativeLimit);
        }
        if self.offset < 0 {
            return Err(QueryError::NegativeOffset);
        }
        let mut rows: Vec<U> = self.query;
        let ghost all = rows@;
        let len: usize = rows.len();
        let total: i64 = len as i64;
        let start: usize = if self.offset < total {
            self.offset as usize
        } else {
            len
        };
        let room: usize = len - start;
        let count: usize = if self.limit < room as i64 {
            self.limit as usize
        } else {
            room
        };
        rows.truncate(start + count);
        let page: Vec<U> = rows.split_off(start);
        assert(page@ =~= window(all, self.offset as int, self.limit as int));
        let ghost wanted = page@;
        let mut out: Vec<(U, i64)> = Vec::new();
        for u in it: page
            invariant
                it.seq() == wanted,
                out@ == wanted.take(it.index() as int).map_values(|u: U| (u, total)),
        {
            out.push((u, total));
            assert(wanted.take(it.index() + 1).map_values(|u: U| (u, total)) =~= wanted.take(
                it.index() as int,
            ).map_values(|u: U| (u, total)).push((u, total)));
        }
        assert(wanted.take(wanted.len() as int) =~= wanted);
        Ok(out)
    }

    /// Runs the paginated query and returns the page with the total: the
    /// number of all rows of the inner query, whatever the window is, also
    /// where the page is empty.
    pub fn load_and_count(self) -> (r: Result<(Vec<U>, i64), QueryError>)
        requires
            self.query@.len() <= i64::MAX,
        ensures
            self.limit < 0 ==> r == Err::<(Vec<U>, i64), QueryError>(QueryError::NegativeLimit),
            self.limit >= 0 && self.offset < 0 ==> r == Err::<(Vec<U>, i64), QueryError>(
                QueryError::NegativeOffset,
            ),
            self.limit >= 0 && self.offset >= 0 ==> r is Ok && r.unwrap().0@ == window(
                self.query@,
                self.offset as int,
                self.limit as int,
            ) && r.unwrap().1 == self.query@.len(),
    {
        let ghost all = self.query@;
        let ghost offset = self.offset as int;
        let ghost limit = self.limit as int;
        let total: i64 = self.query.len() as i64;
        match self.load() {
            Ok(results) => {
                let (records, _) = split_counted(results);
                assert(records@ =~= window(all, offset, limit));
                Ok((records, total))
            },
            Err(e) => Err(e),
        }
    }
}

} // verus!

use vstd::prelude::*;

verus! {

/// The store of upload templates, over a database connection pool `P`.
pub struct SqliteUploadStreamersRepository<P> {
    pool: P,
}

impl<P> SqliteUploadStreamersRepository<P> {
    /// The pool that the repository runs its queries on.
    pub closed spec fn spec_pool(&self) -> P {
        self.pool
    }

    pub fn new(pool: P) -> (r: Self)
        ensures
            r.spec_pool() == pool,
    {
        SqliteUploadStreamersRepository { pool }
    }

    /// The pool that the repository runs its queries on.
    pub fn pool(&self) -> (r: &P)
        ensures
            *r == self.spec_pool(),
    {
        &self.pool
    }
}

} // verus!

//! Connection identity: which connection specs share one pooled handle.
//!
//! The pool itself (a mutex-guarded map of single-initialization cells) is
//! asynchronous I/O and lives outside the library; the library pins down the
//! identity under which handles are shared.

use vstd::prelude::*;

verus! {

/// Credentials and location of one graph database.
pub struct ConnectionSpec {
    pub uri: String,
    pub user: String,
    pub password: String,
    pub db: Option<String>,
}

/// The database name assumed when a connection spec names none.
pub const DEFAULT_DB: &'static str = "neo4j";

/// Identity under which connection handles are pooled: two specs with equal
/// identity must share exactly one handle.
pub struct GraphKey {
    pub uri: String,
    pub db: String,
}

/// The database name a spec effectively addresses: the declared one, or the
/// default.
pub open spec fn effective_db(spec_db: Option<Seq<char>>) -> Seq<char> {
    match spec_db {
        Some(db) => db,
        None => DEFAULT_DB@,
    }
}

impl GraphKey {
    /// The pooling identity of a connection spec: its URI paired with the
    /// database name it effectively addresses.
    pub fn from_spec(spec: &ConnectionSpec) -> (key: GraphKey)
        ensures
            key.uri@ == spec.uri@,
            key.db@ == effective_db(spec.db.deep_view()),
    {
        let db = match &spec.db {
            Some(db) => db.clone(),
            None => DEFAULT_DB.to_owned(),
        };
        GraphKey { uri: spec.uri.clone(), db }
    }
}

/// Two connection specs are pooled together exactly when their URIs agree and
/// they effectively address the same database; a declared name equal to the
/// default is pooled with an absent one.
pub proof fn lemma_pool_identity(a: ConnectionSpec, b: ConnectionSpec, ka: GraphKey, kb: GraphKey)
    requires
        ka.uri@ == a.uri@,
        ka.db@ == effective_db(a.db.deep_view()),
        kb.uri@ == b.uri@,
        kb.db@ == effective_db(b.db.deep_view()),
    ensures
        (ka.uri@ == kb.uri@ && ka.db@ == kb.db@) <==> (a.uri@ == b.uri@ && effective_db(
            a.db.deep_view(),
        ) == effective_db(b.db.deep_view())),
{
}

} // verus!

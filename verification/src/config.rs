//! Checks on the server's configuration.
use vstd::prelude::*;

verus! {

/// What is wrong with a configuration.
#[derive(Debug)]
pub enum ConfigError {
    /// No database URL was configured.
    MissingDbUrl,
}

/// `sqlite`, the scheme prefix of SQLite database URLs.
pub open spec fn sqlite_prefix() -> Seq<char> {
    seq!['s', 'q', 'l', 'i', 't', 'e']
}

/// A database URL must be set; gives whether it names a SQLite database
/// (whose settings are then checked too).
pub fn check_db_url(db_url: &str) -> (r: Result<bool, ConfigError>)
    ensures
        db_url@.len() == 0 <==> r is Err,
        r matches Ok(sqlite) ==> sqlite == crate::text::has_prefix(db_url@, sqlite_prefix()),
{
    let cs = crate::text::chars_of(db_url);
    if cs.len() == 0 {
        return Err(ConfigError::MissingDbUrl);
    }
    let prefix = vec!['s', 'q', 'l', 'i', 't', 'e'];
    if cs.len() < 6 {
        return Ok(false);
    }
    let mut i: usize = 0;
    while i < 6
        invariant
            i <= 6,
            cs@.len() >= 6,
            cs@ == db_url@,
            prefix@ == sqlite_prefix(),
            forall|j: int| 0 <= j < i ==> cs@[j] == prefix@[j],
        decreases 6 - i,
    {
        if cs[i] != prefix[i] {
            assert(cs@.subrange(0, 6)[i as int] != sqlite_prefix()[i as int]);
            assert(cs@.subrange(0, 6) != sqlite_prefix());
            return Ok(false);
        }
        i = i + 1;
    }
    assert(cs@.subrange(0, 6) =~= sqlite_prefix());
    Ok(true)
}

} // verus!

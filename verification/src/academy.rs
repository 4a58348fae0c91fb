use vstd::prelude::*;
use crate::counter::Counter;
use crate::error::Error;
use crate::log::{LogState, RecordLog, MAX_RECORDS};
use crate::principal::Principal;
use crate::record::{Entry, Keyed};
use crate::scan::named_by;

verus! {

/// A credential that the academy issued to a holder for a course.
#[derive(Debug, PartialEq, Eq)]
pub struct Credential {
    pub id: u64,
    pub holder: Principal,
    pub course_id: String,
    pub level: u32,
    pub issued_at: u64,
    pub metadata_uri: String,
}

impl Clone for Credential {
    fn clone(&self) -> (copy: Credential)
        ensures
            copy == *self,
    {
        Credential {
            id: self.id,
            holder: self.holder.clone(),
            course_id: self.course_id.clone(),
            level: self.level,
            issued_at: self.issued_at,
            metadata_uri: self.metadata_uri.clone(),
        }
    }
}

impl Entry for Credential {
    open spec fn names(&self, actor: Seq<char>) -> bool {
        self.holder@ == actor
    }

    open spec fn stamp(&self) -> u64 {
        self.issued_at
    }

    fn involves(&self, actor: &Principal) -> (hit: bool) {
        self.holder.same_as(actor)
    }

    fn duplicate(&self) -> (copy: Credential) {
        self.clone()
    }
}

impl Keyed for Credential {
    open spec fn key(&self) -> u64 {
        self.id
    }

    open spec fn sealed(self, id: u64, at: u64) -> Credential {
        Credential {
            id,
            holder: self.holder,
            course_id: self.course_id,
            level: self.level,
            issued_at: at,
            metadata_uri: self.metadata_uri,
        }
    }

    fn id(&self) -> (id: u64) {
        self.id
    }

    fn seal(self, id: u64, at: u64) -> (full: Credential) {
        Credential {
            id,
            holder: self.holder,
            course_id: self.course_id,
            level: self.level,
            issued_at: at,
            metadata_uri: self.metadata_uri,
        }
    }

    proof fn sealed_is_stamped(self, id: u64, at: u64) {
    }
}

/// The counts of the academy: how many credentials were issued, and the
/// identifier that the next one will get.
#[derive(Clone, Copy, Debug, PartialEq, Eq, Structural)]
pub struct CredentialStats {
    pub total_issued: u64,
    pub next_id: u64,
}

/// The academy: a log of the credentials that were issued.
pub struct AcademyContract {
    log: RecordLog<Credential>,
}

impl View for AcademyContract {
    type V = LogState<Credential>;

    closed spec fn view(&self) -> LogState<Credential> {
        self.log@
    }
}

impl AcademyContract {
    /// The academy is one that the engine hands out.
    pub closed spec fn wf(&self) -> bool {
        self.log.wf()
    }

    /// The counts that belong to a state of the academy.
    pub open spec fn stats_of(state: LogState<Credential>) -> CredentialStats {
        CredentialStats { total_issued: state.records.len() as u64, next_id: state.next_id() }
    }

    /// What is known of every academy that the engine hands out.
    pub proof fn lemma_valid(&self)
        requires
            self.wf(),
        ensures
            self@.valid(),
    {
    }

    /// An academy that was never set up.
    pub fn new() -> (academy: AcademyContract)
        ensures
            academy.wf(),
            academy@ == LogState::<Credential>::fresh(),
    {
        AcademyContract { log: RecordLog::new() }
    }

    /// Sets the academy up: no credential is issued yet and the first will
    /// get the identifier 1. An academy that was set up before stays as it is.
    pub fn init(&mut self) -> (res: Result<(), Error>)
        requires
            old(self).wf(),
        ensures
            final(self).wf(),
            res is Ok,
            final(self)@ == old(self)@.set_up(),
    {
        self.log.init();
        Ok(())
    }

    /// Issues a credential to `holder` at the instant `now`. The caller must
    /// have proved the identity of the administrator, and the academy must
    /// have been set up. The credential gets the next identifier, which is
    /// returned. A refusal leaves the academy as it is.
    pub fn issue_credential(
        &mut self,
        admin_authorized: bool,
        holder: Principal,
        course_id: String,
        level: u32,
        metadata_uri: String,
        now: u64,
    ) -> (res: Result<u64, Error>)
        requires
            old(self).wf(),
            old(self)@.records.len() < MAX_RECORDS,
        ensures
            final(self).wf(),
            !admin_authorized ==> res == Err::<u64, Error>(Error::Unauthorized),
            admin_authorized && !old(self)@.ready ==> res == Err::<u64, Error>(
                Error::NotInitialized,
            ),
            admin_authorized && old(self)@.ready ==> res == Ok::<u64, Error>(old(self)@.next_id()),
            res is Err ==> final(self)@ == old(self)@,
            res is Ok ==> final(self)@.ready && final(self)@.records == old(self)@.records.push(
                Credential {
                    id: old(self)@.next_id(),
                    holder,
                    course_id,
                    level,
                    issued_at: now,
                    metadata_uri,
                },
            ),
            old(self)@.chronological() && (old(self)@.records.len() == 0
                || old(self)@.records.last().stamp() <= now) ==> final(self)@.chronological(),
    {
        if !admin_authorized {
            return Err(Error::Unauthorized);
        }
        let draft = Credential { id: 0, holder, course_id, level, issued_at: 0, metadata_uri };
        self.log.append(draft, now)
    }

    /// Copies of the credentials of `holder`, in the order in which they were
    /// issued.
    pub fn get_user_credentials(&self, holder: &Principal) -> (out: Vec<Credential>)
        ensures
            out@ == self@.records.filter(named_by::<Credential>(holder@)),
    {
        self.log.every(holder)
    }

    /// Whether a credential with the identifier `credential_id` was issued.
    pub fn verify_credential(&self, credential_id: u64) -> (issued: bool)
        requires
            self.wf(),
        ensures
            issued == self@.holds(credential_id),
            issued == (1 <= credential_id <= self@.records.len()),
    {
        proof {
            crate::log::lemma_holds_by_number(self@, credential_id);
        }
        self.log.contains(credential_id)
    }

    /// The counts of the academy: the number of credentials that were ever
    /// issued, and the identifier of the next. An academy that was never set
    /// up has none.
    pub fn get_stats(&self) -> (res: Result<CredentialStats, Error>)
        requires
            self.wf(),
        ensures
            self@.ready ==> res == Ok::<CredentialStats, Error>(Self::stats_of(self@)),
            !self@.ready ==> res == Err::<CredentialStats, Error>(Error::NotInitialized),
    {
        match self.log.counter() {
            Some(c) => Ok(CredentialStats { total_issued: c.total_count(), next_id: c.next_id() }),
            None => Err(Error::NotInitialized),
        }
    }

    /// The academy that was stored as `stats` and `credentials`, if the two
    /// make an academy that the engine could have handed out: the counts agree
    /// with the credentials, and the k-th credential has the identifier k.
    pub fn restore(stats: Option<CredentialStats>, credentials: Vec<Credential>) -> (academy: Option<
        AcademyContract,
    >)
        ensures
            academy is Some <==> {
                &&& LogState { ready: stats is Some, records: credentials@ }.valid()
                &&& stats matches Some(s) ==> s == Self::stats_of(
                    LogState { ready: true, records: credentials@ },
                )
            },
            academy matches Some(a) ==> a.wf() && a@ == (LogState {
                ready: stats is Some,
                records: credentials@,
            }),
    {
        let counter = match stats {
            Some(s) => match Counter::restore(s.next_id, s.total_issued) {
                Some(c) => Some(c),
                None => {
                    return None;
                },
            },
            None => None,
        };
        match RecordLog::restore(counter, credentials) {
            Some(log) => Some(AcademyContract { log }),
            None => None,
        }
    }

    /// The number of credentials that were issued.
    pub fn len(&self) -> (n: usize)
        ensures
            n == self@.records.len(),
    {
        self.log.len()
    }

    /// The counts and the credentials, to be stored.
    pub fn into_parts(self) -> (parts: (Option<CredentialStats>, Vec<Credential>))
        requires
            self.wf(),
        ensures
            parts.0 is Some <==> self@.ready,
            parts.0 matches Some(s) ==> s == Self::stats_of(self@),
            parts.1@ == self@.records,
    {
        let (counter, credentials) = self.log.into_parts();
        let stats = match counter {
            Some(c) => Some(CredentialStats { total_issued: c.total_count(), next_id: c.next_id() }),
            None => None,
        };
        (stats, credentials)
    }
}

} // verus!

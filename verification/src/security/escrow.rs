//! Key escrow: encrypted key material held for disaster recovery and
//! released only to a request that enough authorized parties have signed.

use vstd::prelude::*;
use vstd::string::StringExecFns;
use crate::error::{DreasError, DreasErrorView};
use crate::metadata::Metadata;
use crate::security::audit::{AuditLogger, AuditResult};
use crate::security::kms::copy_bytes;
use crate::string_map::StringMap;
use crate::text::{contains_text, decimal, decimal_text, text_views};
use crate::time::{current_time, Timestamp};
use crate::unique_id::{fresh_id, hyphenated_text, id_text};

verus! {

/// The escrowed material of one key.
#[derive(Debug)]
pub struct EscrowEntry {
    pub key_id: String,
    pub encrypted_key: Vec<u8>,
    pub created_at: Timestamp,
    pub expires_at: Option<Timestamp>,
    pub metadata: Metadata,
}

/// The mathematical value of an [`EscrowEntry`].
pub struct EscrowEntryView {
    pub key_id: Seq<char>,
    pub encrypted_key: Seq<u8>,
    pub created_at: Timestamp,
    pub expires_at: Option<Timestamp>,
    pub metadata: Map<Seq<char>, Seq<char>>,
}

impl View for EscrowEntry {
    type V = EscrowEntryView;

    open spec fn view(&self) -> EscrowEntryView {
        EscrowEntryView {
            key_id: self.key_id@,
            encrypted_key: self.encrypted_key@,
            created_at: self.created_at,
            expires_at: self.expires_at,
            metadata: self.metadata@,
        }
    }
}

/// One party's signature under a recovery request.
#[derive(Debug)]
pub struct EscrowSignature {
    pub signer: String,
    pub signature: String,
    pub timestamp: Timestamp,
}

/// A request to release an escrowed key.
#[derive(Debug)]
pub struct RecoveryRequest {
    pub request_id: u128,
    pub requester: String,
    pub key_id: String,
    pub reason: String,
    pub signatures: Vec<EscrowSignature>,
    pub timestamp: Timestamp,
}

/// The mathematical value of a [`RecoveryRequest`]; of each signature it
/// keeps the signer, which is all that the policy reads.
pub struct RecoveryRequestView {
    pub request_id: u128,
    pub requester: Seq<char>,
    pub key_id: Seq<char>,
    pub reason: Seq<char>,
    pub signers: Seq<Seq<char>>,
    pub timestamp: Timestamp,
}

impl View for RecoveryRequest {
    type V = RecoveryRequestView;

    open spec fn view(&self) -> RecoveryRequestView {
        RecoveryRequestView {
            request_id: self.request_id,
            requester: self.requester@,
            key_id: self.key_id@,
            reason: self.reason@,
            signers: self.signatures@.map_values(|s: EscrowSignature| s.signer@),
            timestamp: self.timestamp,
        }
    }
}

/// A snapshot of the escrow store for health checks.
#[derive(Clone, Copy, Debug)]
pub struct EscrowStats {
    pub escrow_id: u128,
    pub total_keys: usize,
    pub authorized_parties: usize,
    pub minimum_signatures: usize,
    pub created_at: Timestamp,
}

/// Whether an entry with this expiry has expired at `now`: it has an
/// expiry, and `now` lies after it.
pub open spec fn is_expired(expires_at: Option<Timestamp>, now: Timestamp) -> bool {
    match expires_at {
        Some(t) => t.lt(now),
        None => false,
    }
}

/// Every signer is one of the parties.
pub open spec fn all_authorized(signers: Seq<Seq<char>>, parties: Seq<Seq<char>>) -> bool {
    forall|i: int| 0 <= i < signers.len() ==> parties.contains(#[trigger] signers[i])
}

/// `i` is the place of the first signer who is none of the parties.
pub open spec fn is_first_unauthorized(
    signers: Seq<Seq<char>>,
    parties: Seq<Seq<char>>,
    i: int,
) -> bool {
    &&& 0 <= i < signers.len()
    &&& !parties.contains(signers[i])
    &&& forall|j: int| 0 <= j < i ==> parties.contains(#[trigger] signers[j])
}

/// The first signer who is none of the parties, where there is one.
pub open spec fn first_unauthorized(signers: Seq<Seq<char>>, parties: Seq<Seq<char>>) -> Seq<
    char,
> {
    signers[choose|i: int| is_first_unauthorized(signers, parties, i)]
}

/// The complaint about the first field of the request that is empty.
pub open spec fn request_fault(request: RecoveryRequestView) -> Option<Seq<char>> {
    if request.key_id.len() == 0 {
        Some("Key ID cannot be empty"@)
    } else if request.reason.len() == 0 {
        Some("Recovery reason cannot be empty"@)
    } else if request.requester.len() == 0 {
        Some("Requester cannot be empty"@)
    } else {
        None
    }
}

/// The complaint about the signatures of a request: too few of them, or
/// else the first signer who is not authorized.
pub open spec fn signature_fault(signers: Seq<Seq<char>>, parties: Seq<Seq<char>>, threshold: nat)
    -> Option<Seq<char>> {
    if signers.len() < threshold {
        Some(
            "Insufficient signatures. Required: "@ + decimal_text(threshold) + ", Provided: "@
                + decimal_text(signers.len()),
        )
    } else if !all_authorized(signers, parties) {
        Some("Unauthorized signer: "@ + first_unauthorized(signers, parties))
    } else {
        None
    }
}

/// What a recovery request gets at `now`: the stored ciphertext, or the
/// error for the first check that it fails. The checks run in this order:
/// the request's fields, the entry's presence, its expiry, the signatures.
pub open spec fn recovery_outcome(
    parties: Seq<Seq<char>>,
    threshold: nat,
    store: Map<Seq<char>, EscrowEntryView>,
    request: RecoveryRequestView,
    now: Timestamp,
) -> Result<Seq<u8>, DreasErrorView> {
    if request_fault(request) is Some {
        Err(DreasErrorView::Validation(request_fault(request)->0))
    } else if !store.contains_key(request.key_id) {
        Err(DreasErrorView::Generic("Key "@ + request.key_id + " not found in escrow"@))
    } else if is_expired(store[request.key_id].expires_at, now) {
        Err(DreasErrorView::Expired("Escrowed key has expired"@))
    } else if signature_fault(request.signers, parties, threshold) is Some {
        Err(
            DreasErrorView::Authentication(
                signature_fault(request.signers, parties, threshold)->0,
            ),
        )
    } else {
        Ok(store[request.key_id].encrypted_key)
    }
}

/// A well-formed request for a key that is in escrow is granted if and
/// only if it carries at least the threshold of signatures, every signer
/// is an authorized party, and the entry has no expiry or `now` is not
/// past it. Failing any one of the three alone rejects the request.
pub proof fn lemma_recovery_granted_iff(
    parties: Seq<Seq<char>>,
    threshold: nat,
    store: Map<Seq<char>, EscrowEntryView>,
    request: RecoveryRequestView,
    now: Timestamp,
)
    requires
        request_fault(request) is None,
        store.contains_key(request.key_id),
    ensures
        recovery_outcome(parties, threshold, store, request, now) is Ok <==> (request.signers.len()
            >= threshold && all_authorized(request.signers, parties) && (
        store[request.key_id].expires_at is None || now.le(
            store[request.key_id].expires_at->0,
        ))),
        recovery_outcome(parties, threshold, store, request, now) is Ok ==> recovery_outcome(
            parties,
            threshold,
            store,
            request,
            now,
        ) == Ok::<Seq<u8>, DreasErrorView>(store[request.key_id].encrypted_key),
        is_expired(store[request.key_id].expires_at, now) ==> recovery_outcome(
            parties,
            threshold,
            store,
            request,
            now,
        ) is Err && recovery_outcome(parties, threshold, store, request, now)->Err_0 is Expired,
        !is_expired(store[request.key_id].expires_at, now) && (request.signers.len() < threshold
            || !all_authorized(request.signers, parties)) ==> recovery_outcome(
            parties,
            threshold,
            store,
            request,
            now,
        ) is Err && recovery_outcome(
            parties,
            threshold,
            store,
            request,
            now,
        )->Err_0 is Authentication,
{
}

/// An entry that has expired stays expired: no request for it is granted
/// at any later time.
pub proof fn lemma_expired_stays_expired(
    parties: Seq<Seq<char>>,
    threshold: nat,
    store: Map<Seq<char>, EscrowEntryView>,
    request: RecoveryRequestView,
    now: Timestamp,
    later: Timestamp,
)
    requires
        store.contains_key(request.key_id),
        is_expired(store[request.key_id].expires_at, now),
        now.le(later),
    ensures
        is_expired(store[request.key_id].expires_at, later),
        recovery_outcome(parties, threshold, store, request, later) is Err,
{
}

/// The annotations of the audit entry for a recovery attempt.
pub open spec fn recovery_annotations(escrow_id: u128, request: RecoveryRequestView) -> Map<
    Seq<char>,
    Seq<char>,
> {
    Map::<Seq<char>, Seq<char>>::empty().insert(
        "escrow_id"@,
        hyphenated_text(escrow_id),
    ).insert("request_id"@, hyphenated_text(request.request_id)).insert(
        "reason"@,
        request.reason,
    ).insert("signature_count"@, decimal_text(request.signers.len()))
}

/// The annotations of the audit entry for an escrow.
pub open spec fn escrow_annotations(escrow_id: u128) -> Map<Seq<char>, Seq<char>> {
    Map::<Seq<char>, Seq<char>>::empty().insert("escrow_id"@, hyphenated_text(escrow_id))
}

/// A result by its value.
pub open spec fn outcome_view(r: Result<Vec<u8>, DreasError>) -> Result<Seq<u8>, DreasErrorView> {
    match r {
        Ok(bytes) => Ok(bytes@),
        Err(e) => Err(e@),
    }
}

/// The escrow store with its recovery policy.
#[derive(Debug)]
pub struct KeyEscrow {
    escrow_id: u128,
    authorized_parties: Vec<String>,
    minimum_signatures: usize,
    escrow_data: StringMap<EscrowEntry>,
}

impl KeyEscrow {
    /// The identity of this store.
    pub closed spec fn escrow_id(&self) -> u128 {
        self.escrow_id
    }

    /// The parties whose signatures count.
    pub closed spec fn parties(&self) -> Seq<Seq<char>> {
        text_views(self.authorized_parties@)
    }

    /// The number of signatures that a recovery needs.
    pub closed spec fn threshold(&self) -> nat {
        self.minimum_signatures as nat
    }

    /// The entries by key id.
    pub closed spec fn store(&self) -> Map<Seq<char>, EscrowEntryView> {
        self.escrow_data@.map_values(|e: EscrowEntry| e@)
    }

    /// The key ids in the order in which they were first escrowed.
    pub closed spec fn key_ids(&self) -> Seq<Seq<char>> {
        self.escrow_data.keys()
    }

    /// An empty store. A threshold above the number of parties could never
    /// be met and is refused as a configuration error.
    pub fn new(authorized_parties: Vec<String>, minimum_signatures: usize) -> (r: Result<
        Self,
        DreasError,
    >)
        ensures
            match r {
                Ok(escrow) => minimum_signatures <= authorized_parties.len() && escrow.parties()
                    == text_views(authorized_parties@) && escrow.threshold()
                    == minimum_signatures && escrow.store() == Map::<
                    Seq<char>,
                    EscrowEntryView,
                >::empty() && escrow.key_ids() == Seq::<Seq<char>>::empty(),
                Err(e) => minimum_signatures > authorized_parties.len() && e@
                    == DreasErrorView::Configuration(
                    "Minimum signatures cannot exceed number of authorized parties"@,
                ),
            },
    {
        if authorized_parties.len() < minimum_signatures {
            return Err(
                DreasError::Configuration(
                    "Minimum signatures cannot exceed number of authorized parties".to_string(),
                ),
            );
        }
        let escrow = KeyEscrow {
            escrow_id: fresh_id(),
            authorized_parties,
            minimum_signatures,
            escrow_data: StringMap::new(),
        };
        proof {
            assert(escrow.store() =~= Map::<Seq<char>, EscrowEntryView>::empty());
        }
        Ok(escrow)
    }

    /// Whether `signer` is one of the authorized parties.
    pub fn is_authorized(&self, signer: &String) -> (b: bool)
        ensures
            b == self.parties().contains(signer@),
    {
        contains_text(&self.authorized_parties, signer)
    }

    /// Checks that the fields of the request are given. The error names
    /// the first one that is empty.
    pub fn validate_recovery_request(&self, request: &RecoveryRequest) -> (r: Result<
        (),
        DreasError,
    >)
        ensures
            match r {
                Ok(_) => request_fault(request@) is None,
                Err(e) => request_fault(request@) is Some && e@ == DreasErrorView::Validation(
                    request_fault(request@)->0,
                ),
            },
    {
        if request.key_id.as_str().is_empty() {
            return Err(DreasError::Validation("Key ID cannot be empty".to_string()));
        }
        if request.reason.as_str().is_empty() {
            return Err(DreasError::Validation("Recovery reason cannot be empty".to_string()));
        }
        if request.requester.as_str().is_empty() {
            return Err(DreasError::Validation("Requester cannot be empty".to_string()));
        }
        Ok(())
    }

    /// Checks the signatures of the request against the policy: there must
    /// be at least the threshold of them, and every signer must be an
    /// authorized party. The error names the condition that failed.
    pub fn validate_signatures(&self, request: &RecoveryRequest) -> (r: Result<(), DreasError>)
        ensures
            match r {
                Ok(_) => signature_fault(request@.signers, self.parties(), self.threshold())
                    is None,
                Err(e) => signature_fault(request@.signers, self.parties(), self.threshold())
                    is Some && e@ == DreasErrorView::Authentication(
                    signature_fault(request@.signers, self.parties(), self.threshold())->0,
                ),
            },
    {
        if request.signatures.len() < self.minimum_signatures {
            let mut message = String::from_str("Insufficient signatures. Required: ");
            message.append(decimal(self.minimum_signatures).as_str());
            message.append(", Provided: ");
            message.append(decimal(request.signatures.len()).as_str());
            return Err(DreasError::Authentication(message));
        }
        let mut i: usize = 0;
        while i < request.signatures.len()
            invariant
                i <= request.signatures.len(),
                request.signatures.len() >= self.minimum_signatures,
                request@.signers.len() == request.signatures.len(),
                forall|j: int| 0 <= j < i ==> self.parties().contains(#[trigger] request@.signers[j]),
            decreases request.signatures.len() - i,
        {
            let signer = &request.signatures[i].signer;
            assert(request@.signers[i as int] == signer@);
            if !self.is_authorized(signer) {
                proof {
                    let signers = request@.signers;
                    let parties = self.parties();
                    assert(is_first_unauthorized(signers, parties, i as int));
                    let c = choose|c: int| is_first_unauthorized(signers, parties, c);
                    assert(c == i) by {
                        if c < i {
                            assert(parties.contains(signers[c]));
                        } else if i < c {
                            assert(parties.contains(signers[i as int]));
                        }
                    }
                    assert(!all_authorized(signers, parties));
                }
                let mut message = String::from_str("Unauthorized signer: ");
                message.append(signer.as_str());
                return Err(DreasError::Authentication(message));
            }
            i += 1;
        }
        Ok(())
    }

    /// Decides a recovery request at `now`, without writing to any ledger:
    /// the stored ciphertext, or the error of the first check that fails.
    pub fn decide_recovery(&self, request: &RecoveryRequest, now: Timestamp) -> (r: Result<
        Vec<u8>,
        DreasError,
    >)
        ensures
            outcome_view(r) == recovery_outcome(
                self.parties(),
                self.threshold(),
                self.store(),
                request@,
                now,
            ),
    {
        match self.validate_recovery_request(request) {
            Ok(_) => {},
            Err(e) => {
                return Err(e);
            },
        }
        let entry = match self.escrow_data.get(&request.key_id) {
            Some(entry) => entry,
            None => {
                let mut message = String::from_str("Key ");
                message.append(request.key_id.as_str());
                message.append(" not found in escrow");
                return Err(DreasError::Generic(message));
            },
        };
        assert(self.store()[request.key_id@] == entry@);
        if let Some(expires_at) = &entry.expires_at {
            if expires_at.is_before(&now) {
                return Err(DreasError::Expired("Escrowed key has expired".to_string()));
            }
        }
        match self.validate_signatures(request) {
            Ok(_) => {},
            Err(e) => {
                return Err(e);
            },
        }
        Ok(copy_bytes(entry.encrypted_key.as_slice()))
    }

    /// Writes the ledger entry for a recovery attempt that ended in
    /// `result`: who asked for which key and why, under how many
    /// signatures.
    fn audit_recovery(&self, request: &RecoveryRequest, result: AuditResult, ledger: &mut AuditLogger)
        ensures
            final(ledger).logged(
                old(ledger),
                Some(request@.requester),
                None,
                "key_recovery"@,
                request@.key_id,
                result,
                recovery_annotations(self.escrow_id(), request@),
            ),
    {
        let mut metadata = Metadata::new();
        metadata.insert("escrow_id".to_string(), id_text(self.escrow_id));
        metadata.insert("request_id".to_string(), id_text(request.request_id));
        metadata.insert("reason".to_string(), request.reason.clone());
        metadata.insert("signature_count".to_string(), decimal(request.signatures.len()));
        let _ = ledger.log_operation(
            Some(request.requester.clone()),
            None,
            "key_recovery".to_string(),
            request.key_id.clone(),
            result,
            Some(metadata),
        );
    }

    /// Handles a recovery request at `now`. The caller gets the stored
    /// ciphertext, never the key itself, or the error of the first check
    /// that fails. Every attempt leaves exactly one entry in the ledger,
    /// written before the outcome is returned: `Success` for a grant,
    /// `Failure` for a rejection.
    pub fn recover_key_at(
        &self,
        request: RecoveryRequest,
        now: Timestamp,
        ledger: &mut AuditLogger,
    ) -> (r: Result<Vec<u8>, DreasError>)
        ensures
            outcome_view(r) == recovery_outcome(
                self.parties(),
                self.threshold(),
                self.store(),
                request@,
                now,
            ),
            final(ledger).logged(
                old(ledger),
                Some(request@.requester),
                None,
                "key_recovery"@,
                request@.key_id,
                if r is Ok {
                    AuditResult::Success
                } else {
                    AuditResult::Failure
                },
                recovery_annotations(self.escrow_id(), request@),
            ),
    {
        let outcome = self.decide_recovery(&request, now);
        let result = if outcome.is_ok() {
            AuditResult::Success
        } else {
            AuditResult::Failure
        };
        self.audit_recovery(&request, result, ledger);
        outcome
    }

    /// Handles a recovery request at the current time; see
    /// [`Self::recover_key_at`]. The outcome is the one that the policy
    /// gives for whatever time the clock gave.
    pub fn recover_key(&self, request: RecoveryRequest, ledger: &mut AuditLogger) -> (r: Result<
        Vec<u8>,
        DreasError,
    >)
        ensures
            exists|now: Timestamp|
                outcome_view(r) == recovery_outcome(
                    self.parties(),
                    self.threshold(),
                    self.store(),
                    request@,
                    now,
                ),
            final(ledger).logged(
                old(ledger),
                Some(request@.requester),
                None,
                "key_recovery"@,
                request@.key_id,
                if r is Ok {
                    AuditResult::Success
                } else {
                    AuditResult::Failure
                },
                recovery_annotations(self.escrow_id(), request@),
            ),
    {
        let now = current_time();
        self.recover_key_at(request, now, ledger)
    }

    /// Stores `encrypted_key` under `key_id` with `now` as its creation
    /// time, replacing an earlier entry of that id. The ciphertext is kept
    /// as it is. The ledger gets one `Success` entry for the escrow.
    pub fn escrow_key_at(
        &mut self,
        key_id: String,
        encrypted_key: Vec<u8>,
        expires_at: Option<Timestamp>,
        now: Timestamp,
        ledger: &mut AuditLogger,
    ) -> (r: Result<(), DreasError>)
        ensures
            r is Ok,
            final(self).store() == old(self).store().insert(
                key_id@,
                EscrowEntryView {
                    key_id: key_id@,
                    encrypted_key: encrypted_key@,
                    created_at: now,
                    expires_at,
                    metadata: Map::empty(),
                },
            ),
            final(self).key_ids() == if old(self).store().contains_key(key_id@) {
                old(self).key_ids()
            } else {
                old(self).key_ids().push(key_id@)
            },
            final(self).parties() == old(self).parties(),
            final(self).threshold() == old(self).threshold(),
            final(self).escrow_id() == old(self).escrow_id(),
            final(ledger).logged(
                old(ledger),
                None,
                None,
                "key_escrow"@,
                key_id@,
                AuditResult::Success,
                escrow_annotations(old(self).escrow_id()),
            ),
    {
        let entry = EscrowEntry {
            key_id: key_id.clone(),
            encrypted_key,
            created_at: now,
            expires_at,
            metadata: Metadata::new(),
        };
        let resource = key_id.clone();
        self.escrow_data.insert(key_id, entry);
        proof {
            assert(self.store() =~= old(self).store().insert(key_id@, entry@));
            assert(old(self).store().contains_key(key_id@) == old(self).escrow_data@.contains_key(
                key_id@,
            ));
        }
        let mut metadata = Metadata::new();
        metadata.insert("escrow_id".to_string(), id_text(self.escrow_id));
        let _ = ledger.log_operation(
            None,
            None,
            "key_escrow".to_string(),
            resource,
            AuditResult::Success,
            Some(metadata),
        );
        Ok(())
    }

    /// Stores `encrypted_key` under `key_id` with the current time as its
    /// creation time; see [`Self::escrow_key_at`].
    pub fn escrow_key(
        &mut self,
        key_id: String,
        encrypted_key: Vec<u8>,
        expires_at: Option<Timestamp>,
        ledger: &mut AuditLogger,
    ) -> (r: Result<(), DreasError>)
        ensures
            r is Ok,
            final(self).store().dom() == old(self).store().dom().insert(key_id@),
            final(self).store() == old(self).store().insert(
                key_id@,
                EscrowEntryView {
                    key_id: key_id@,
                    encrypted_key: encrypted_key@,
                    created_at: final(self).store()[key_id@].created_at,
                    expires_at,
                    metadata: Map::empty(),
                },
            ),
            final(self).key_ids() == if old(self).store().contains_key(key_id@) {
                old(self).key_ids()
            } else {
                old(self).key_ids().push(key_id@)
            },
            final(self).parties() == old(self).parties(),
            final(self).threshold() == old(self).threshold(),
            final(self).escrow_id() == old(self).escrow_id(),
            final(ledger).logged(
                old(ledger),
                None,
                None,
                "key_escrow"@,
                key_id@,
                AuditResult::Success,
                escrow_annotations(old(self).escrow_id()),
            ),
    {
        let now = current_time();
        self.escrow_key_at(key_id, encrypted_key, expires_at, now, ledger)
    }

    /// The ids of the escrowed keys, in the order in which they were first
    /// escrowed: each id of the store once.
    pub fn list_escrowed_keys(&self) -> (keys: Vec<String>)
        ensures
            text_views(keys@) == self.key_ids(),
            self.key_ids().no_duplicates(),
            forall|k: Seq<char>| self.key_ids().contains(k) <==> #[trigger] self.store().contains_key(k),
    {
        let n = self.escrow_data.len();
        let mut keys: Vec<String> = Vec::new();
        let mut i: usize = 0;
        while i < n
            invariant
                i <= n,
                n == self.escrow_data.keys().len(),
                keys@.map_values(|k: String| k@) == self.escrow_data.keys().take(i as int),
            decreases n - i,
        {
            let ghost prior = keys@.map_values(|k: String| k@);
            keys.push(self.escrow_data.key_at(i).clone());
            proof {
                assert(keys@.map_values(|k: String| k@) =~= prior.push(
                    self.escrow_data.keys()[i as int],
                ));
                assert(self.escrow_data.keys().take(i as int).push(
                    self.escrow_data.keys()[i as int],
                ) =~= self.escrow_data.keys().take(i as int + 1));
            }
            i += 1;
        }
        proof {
            assert(self.escrow_data.keys().take(n as int) =~= self.escrow_data.keys());
            assert(self.store().dom() =~= self.escrow_data@.dom());
        }
        keys
    }

    /// A snapshot of the store: how many keys it holds and its policy,
    /// stamped with the current time.
    pub fn get_escrow_stats(&self) -> (stats: EscrowStats)
        ensures
            stats.escrow_id == self.escrow_id(),
            stats.total_keys == self.store().len(),
            stats.total_keys == self.key_ids().len(),
            stats.authorized_parties == self.parties().len(),
            stats.minimum_signatures == self.threshold(),
    {
        let total_keys = self.escrow_data.len();
        proof {
            assert(self.store().dom() =~= self.escrow_data@.dom());
        }
        EscrowStats {
            escrow_id: self.escrow_id,
            total_keys,
            authorized_parties: self.authorized_parties.len(),
            minimum_signatures: self.minimum_signatures,
            created_at: current_time(),
        }
    }
}

} // verus!

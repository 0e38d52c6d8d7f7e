//! Reset-flow controller of the mock boot flow.
//!
//! The controller works on a plain-value model of the boot environment and
//! keeps a journal of what it did to it, in order. Work that belongs to a
//! collaborator is not done here. `FakeRomFlow::run` takes the outcomes of
//! the collaborators as values; `FakeRomFlow::begin` and
//! `FakeRomFlow::resume` are its two halves, for a caller that has to run a
//! collaborator in between.

use vstd::prelude::*;

verus! {

/// Why the platform came out of reset.
#[derive(Clone, Copy, Debug, PartialEq, Eq, Structural)]
pub enum ResetReason {
    ColdReset,
    WarmReset,
    UpdateReset,
    Unknown,
}

/// Why a flow failed.
#[derive(Clone, Copy, Debug, PartialEq, Eq, Structural)]
pub enum RomError {
    /// The reset reason names no flow.
    UnknownResetFlow,
    /// The device-identity certificate does not fit in its slot.
    UnsupportedLdevidTbsSize,
    /// The alias certificate does not fit in its slot.
    UnsupportedFmcAliasTbsSize,
    /// A collaborator failed with this code.
    Collaborator(u32),
}

/// One thing done to the boot environment.
#[derive(Clone, Copy, Debug, PartialEq, Eq, Structural)]
pub enum Effect {
    ColdResetStarted,
    KeyVaultZeroized,
    ReadyForFirmware,
    HandoffTableInitialized,
    LdevCertInstalled,
    ShaAccLockAcquired,
    ShaAccLockReleased,
    FmcAliasCertInstalled,
    ColdResetComplete,
}

/// A collaborator that the controller delegates to.
#[derive(Clone, Copy, Debug, PartialEq, Eq, Structural)]
pub enum Collaborator {
    FirmwareProcessor,
    WarmResetFlow,
    UpdateResetFlow,
}

/// Where the controller stands after `FakeRomFlow::begin`.
#[derive(Clone, Copy, Debug, PartialEq, Eq)]
pub enum FlowStep {
    /// The flow ended with this result.
    Done(Result<(), RomError>),
    /// This collaborator is due; its outcome goes to `FakeRomFlow::resume`.
    Delegate(Collaborator),
}

/// An ECC-384 public key, as twelve words for each coordinate.
#[derive(Clone, Copy, Debug, PartialEq, Eq)]
pub struct Ecc384PubKey {
    pub x: [u32; 12],
    pub y: [u32; 12],
}

/// An ECC-384 signature, as twelve words for each part.
#[derive(Clone, Copy, Debug, PartialEq, Eq)]
pub struct Ecc384Signature {
    pub r: [u32; 12],
    pub s: [u32; 12],
}

/// A ready-made certificate: its signature, its key and its to-be-signed
/// bytes.
#[derive(Clone, Debug, PartialEq, Eq)]
pub struct CannedCert {
    pub signature: Ecc384Signature,
    pub pub_key: Ecc384PubKey,
    pub tbs: Vec<u8>,
}

/// A certificate slot. `tbs` is the slot's buffer, whose length is the
/// slot's capacity; `tbs_size` says how many of its bytes are a certificate.
#[derive(Clone, Debug, PartialEq, Eq)]
pub struct CertSlot {
    pub signature: Ecc384Signature,
    pub pub_key: Ecc384PubKey,
    pub tbs: Vec<u8>,
    pub tbs_size: u16,
}

/// The boot environment that a flow works on.
#[derive(Clone, Debug, PartialEq, Eq)]
pub struct RomEnv {
    pub reset_reason: ResetReason,
    /// The words of the key vault.
    pub key_vault: Vec<u32>,
    pub ready_for_firmware: bool,
    pub handoff_table_initialized: bool,
    pub sha_acc_locked: bool,
    pub ldevid: CertSlot,
    pub fmc_alias: CertSlot,
    /// What was done to the environment, oldest first.
    pub journal: Vec<Effect>,
}

/// What each collaborator returns when the flow calls on it.
#[derive(Clone, Copy, Debug, PartialEq, Eq)]
pub struct CollaboratorOutcomes {
    pub firmware_processor: Result<(), RomError>,
    pub warm_reset_flow: Result<(), RomError>,
    pub update_reset_flow: Result<(), RomError>,
}

/// The mock boot flow.
pub struct FakeRomFlow {}

/// A certificate as contracts see it.
pub struct CannedCertView {
    pub signature: Ecc384Signature,
    pub pub_key: Ecc384PubKey,
    pub tbs: Seq<u8>,
}

/// A certificate slot as contracts see it.
pub struct CertSlotView {
    pub signature: Ecc384Signature,
    pub pub_key: Ecc384PubKey,
    pub tbs: Seq<u8>,
    pub tbs_size: u16,
}

/// The boot environment as contracts see it.
pub struct RomEnvView {
    pub reset_reason: ResetReason,
    pub key_vault: Seq<u32>,
    pub ready_for_firmware: bool,
    pub handoff_table_initialized: bool,
    pub sha_acc_locked: bool,
    pub ldevid: CertSlotView,
    pub fmc_alias: CertSlotView,
    pub journal: Seq<Effect>,
}

impl View for CannedCert {
    type V = CannedCertView;

    open spec fn view(&self) -> CannedCertView {
        CannedCertView { signature: self.signature, pub_key: self.pub_key, tbs: self.tbs@ }
    }
}

impl View for CertSlot {
    type V = CertSlotView;

    open spec fn view(&self) -> CertSlotView {
        CertSlotView {
            signature: self.signature,
            pub_key: self.pub_key,
            tbs: self.tbs@,
            tbs_size: self.tbs_size,
        }
    }
}

impl View for RomEnv {
    type V = RomEnvView;

    open spec fn view(&self) -> RomEnvView {
        RomEnvView {
            reset_reason: self.reset_reason,
            key_vault: self.key_vault@,
            ready_for_firmware: self.ready_for_firmware,
            handoff_table_initialized: self.handoff_table_initialized,
            sha_acc_locked: self.sha_acc_locked,
            ldevid: self.ldevid@,
            fmc_alias: self.fmc_alias@,
            journal: self.journal@,
        }
    }
}

/// The largest capacity that a slot's size field can account for.
pub const MAX_TBS_CAPACITY: usize = 0xffff;

impl CertSlotView {
    /// The recorded size lies within the buffer, and the buffer within what
    /// the size field can say.
    pub open spec fn wf(self) -> bool {
        &&& self.tbs.len() <= MAX_TBS_CAPACITY
        &&& self.tbs_size <= self.tbs.len()
    }

    /// Whether the to-be-signed bytes of `cert` fit in the slot.
    pub open spec fn fits(self, cert: CannedCertView) -> bool {
        cert.tbs.len() <= self.tbs.len()
    }

    /// The slot after `cert` was installed in it. Signature and key are
    /// recorded in any case. The to-be-signed bytes go to the front of the
    /// buffer, and their length into the size field, only where they fit.
    pub open spec fn installed(self, cert: CannedCertView) -> CertSlotView {
        if self.fits(cert) {
            CertSlotView {
                signature: cert.signature,
                pub_key: cert.pub_key,
                tbs: cert.tbs + self.tbs.subrange(cert.tbs.len() as int, self.tbs.len() as int),
                tbs_size: cert.tbs.len() as u16,
            }
        } else {
            CertSlotView { signature: cert.signature, pub_key: cert.pub_key, ..self }
        }
    }
}

impl RomEnvView {
    /// Both slots are well formed.
    pub open spec fn wf(self) -> bool {
        self.ldevid.wf() && self.fmc_alias.wf()
    }

    /// The environment after the device-identity certificate was installed.
    pub open spec fn with_ldev_cert(self, cert: CannedCertView) -> RomEnvView {
        RomEnvView {
            ldevid: self.ldevid.installed(cert),
            journal: if self.ldevid.fits(cert) {
                self.journal.push(Effect::LdevCertInstalled)
            } else {
                self.journal
            },
            ..self
        }
    }

    /// The environment after the alias certificate was installed.
    pub open spec fn with_fmc_alias_cert(self, cert: CannedCertView) -> RomEnvView {
        RomEnvView {
            fmc_alias: self.fmc_alias.installed(cert),
            journal: if self.fmc_alias.fits(cert) {
                self.journal.push(Effect::FmcAliasCertInstalled)
            } else {
                self.journal
            },
            ..self
        }
    }

    /// The environment after the first steps of a cold boot, up to the
    /// handoff table: the boot status says that the flow started, the key
    /// vault holds zeros only, the platform was told that firmware may
    /// come, and the handoff table is initialized.
    pub open spec fn prepared(self) -> RomEnvView {
        RomEnvView {
            key_vault: Seq::new(self.key_vault.len(), |i: int| 0u32),
            ready_for_firmware: true,
            handoff_table_initialized: true,
            journal: self.journal + cold_reset_opening(),
            ..self
        }
    }

    /// The environment after the accelerator's lock was taken and given
    /// back.
    pub open spec fn with_sha_acc_unlocked(self) -> RomEnvView {
        RomEnvView {
            sha_acc_locked: false,
            journal: self.journal.push(Effect::ShaAccLockAcquired).push(
                Effect::ShaAccLockReleased,
            ),
            ..self
        }
    }

    /// The environment when a cold boot hands over to the firmware
    /// processor, or has failed before that.
    pub open spec fn cold_reset_begun(self, ldev: CannedCertView) -> RomEnvView {
        if self.ldevid.fits(ldev) {
            self.prepared().with_ldev_cert(ldev).with_sha_acc_unlocked()
        } else {
            self.prepared().with_ldev_cert(ldev)
        }
    }

    /// The environment when a cold boot ends after the firmware processor
    /// succeeded.
    pub open spec fn cold_reset_finished(self, fmc_alias: CannedCertView) -> RomEnvView {
        let env = self.with_fmc_alias_cert(fmc_alias);
        if self.fmc_alias.fits(fmc_alias) {
            RomEnvView { journal: env.journal.push(Effect::ColdResetComplete), ..env }
        } else {
            env
        }
    }
}

/// Twelve words of zero.
pub open spec fn zero_words() -> Seq<u32> {
    Seq::new(12, |i: int| 0u32)
}

/// What a cold boot does first, in order.
pub open spec fn cold_reset_opening() -> Seq<Effect> {
    seq![
        Effect::ColdResetStarted,
        Effect::KeyVaultZeroized,
        Effect::ReadyForFirmware,
        Effect::HandoffTableInitialized,
    ]
}

/// What a cold boot does, in order, before the firmware processor is due.
pub open spec fn cold_reset_journal() -> Seq<Effect> {
    seq![
        Effect::ColdResetStarted,
        Effect::KeyVaultZeroized,
        Effect::ReadyForFirmware,
        Effect::HandoffTableInitialized,
        Effect::LdevCertInstalled,
        Effect::ShaAccLockAcquired,
        Effect::ShaAccLockReleased,
    ]
}

/// Where `FakeRomFlow::begin` stands when it returns.
pub open spec fn begin_step(env: RomEnvView, ldev: CannedCertView) -> FlowStep {
    match env.reset_reason {
        ResetReason::ColdReset => if env.ldevid.fits(ldev) {
            FlowStep::Delegate(Collaborator::FirmwareProcessor)
        } else {
            FlowStep::Done(Err(RomError::UnsupportedLdevidTbsSize))
        },
        ResetReason::WarmReset => FlowStep::Delegate(Collaborator::WarmResetFlow),
        ResetReason::UpdateReset => FlowStep::Delegate(Collaborator::UpdateResetFlow),
        ResetReason::Unknown => FlowStep::Done(Err(RomError::UnknownResetFlow)),
    }
}

/// The environment that `FakeRomFlow::begin` leaves.
pub open spec fn begin_env(env: RomEnvView, ldev: CannedCertView) -> RomEnvView {
    match env.reset_reason {
        ResetReason::ColdReset => env.cold_reset_begun(ldev),
        _ => env,
    }
}

/// What `FakeRomFlow::resume` returns.
pub open spec fn resume_result(
    env: RomEnvView,
    collaborator: Collaborator,
    outcome: Result<(), RomError>,
    fmc_alias: CannedCertView,
) -> Result<(), RomError> {
    match collaborator {
        Collaborator::FirmwareProcessor => match outcome {
            Ok(_) => if env.fmc_alias.fits(fmc_alias) {
                Ok(())
            } else {
                Err(RomError::UnsupportedFmcAliasTbsSize)
            },
            Err(e) => Err(e),
        },
        _ => outcome,
    }
}

/// The environment that `FakeRomFlow::resume` leaves.
pub open spec fn resume_env(
    env: RomEnvView,
    collaborator: Collaborator,
    outcome: Result<(), RomError>,
    fmc_alias: CannedCertView,
) -> RomEnvView {
    match (collaborator, outcome) {
        (Collaborator::FirmwareProcessor, Ok(_)) => env.cold_reset_finished(fmc_alias),
        _ => env,
    }
}

impl CollaboratorOutcomes {
    /// The outcome of one collaborator.
    pub open spec fn of(self, collaborator: Collaborator) -> Result<(), RomError> {
        match collaborator {
            Collaborator::FirmwareProcessor => self.firmware_processor,
            Collaborator::WarmResetFlow => self.warm_reset_flow,
            Collaborator::UpdateResetFlow => self.update_reset_flow,
        }
    }

    /// The outcome of one collaborator.
    pub fn outcome(&self, collaborator: Collaborator) -> (r: Result<(), RomError>)
        ensures
            r == self.of(collaborator),
    {
        match collaborator {
            Collaborator::FirmwareProcessor => self.firmware_processor,
            Collaborator::WarmResetFlow => self.warm_reset_flow,
            Collaborator::UpdateResetFlow => self.update_reset_flow,
        }
    }
}

/// What `FakeRomFlow::run` returns.
pub open spec fn run_result(
    env: RomEnvView,
    ldev: CannedCertView,
    fmc_alias: CannedCertView,
    outcomes: CollaboratorOutcomes,
) -> Result<(), RomError> {
    match begin_step(env, ldev) {
        FlowStep::Done(r) => r,
        FlowStep::Delegate(c) => resume_result(begin_env(env, ldev), c, outcomes.of(c), fmc_alias),
    }
}

/// The environment that `FakeRomFlow::run` leaves.
pub open spec fn run_env(
    env: RomEnvView,
    ldev: CannedCertView,
    fmc_alias: CannedCertView,
    outcomes: CollaboratorOutcomes,
) -> RomEnvView {
    match begin_step(env, ldev) {
        FlowStep::Done(_) => begin_env(env, ldev),
        FlowStep::Delegate(c) => resume_env(begin_env(env, ldev), c, outcomes.of(c), fmc_alias),
    }
}

/// Whether, from entry `from` of the journal on, each signal that firmware
/// may come has a zeroization of the key vault before it.
pub open spec fn zeroized_before_ready(journal: Seq<Effect>, from: int) -> bool {
    forall|i: int|
        from <= i < journal.len() && #[trigger] journal[i] == Effect::ReadyForFirmware
            ==> exists|k: int| from <= k < i && #[trigger] journal[k] == Effect::KeyVaultZeroized
}

/// Whether the journal holds `effect` at entry `from` or later.
pub open spec fn records(journal: Seq<Effect>, from: int, effect: Effect) -> bool {
    exists|i: int| from <= i < journal.len() && #[trigger] journal[i] == effect
}

impl CertSlot {
    /// An empty slot with a zeroed buffer of `capacity` bytes.
    pub fn new(capacity: u16) -> (slot: CertSlot)
        ensures
            slot@.wf(),
            slot@.tbs == Seq::new(capacity as nat, |i: int| 0u8),
            slot@.tbs_size == 0,
            slot@.signature.r@ == zero_words(),
            slot@.signature.s@ == zero_words(),
            slot@.pub_key.x@ == zero_words(),
            slot@.pub_key.y@ == zero_words(),
    {
        let mut tbs: Vec<u8> = Vec::new();
        let mut i: u16 = 0;
        while i < capacity
            invariant
                i <= capacity,
                tbs@ == Seq::new(i as nat, |k: int| 0u8),
            decreases capacity - i,
        {
            tbs.push(0u8);
            assert(tbs@ =~= Seq::new((i + 1) as nat, |k: int| 0u8));
            i += 1;
        }
        let zero: [u32; 12] = [0u32; 12];
        assert(zero@ =~= zero_words());
        CertSlot {
            signature: Ecc384Signature { r: zero, s: zero },
            pub_key: Ecc384PubKey { x: zero, y: zero },
            tbs,
            tbs_size: 0,
        }
    }

    /// The bytes of the certificate that the slot holds.
    pub fn certificate(&self) -> (bytes: Vec<u8>)
        requires
            self@.wf(),
        ensures
            bytes@ == self@.tbs.subrange(0, self@.tbs_size as int),
    {
        let mut bytes: Vec<u8> = Vec::new();
        let size: usize = self.tbs_size as usize;
        let mut i: usize = 0;
        while i < size
            invariant
                i <= size,
                size <= self.tbs@.len(),
                bytes@ == self.tbs@.subrange(0, i as int),
            decreases size - i,
        {
            bytes.push(self.tbs[i]);
            assert(bytes@ =~= self.tbs@.subrange(0, i + 1));
            i += 1;
        }
        bytes
    }

    /// Installs a certificate: records its signature and key, then copies
    /// its to-be-signed bytes to the front of the buffer and records their
    /// length. Bytes that do not fit are not copied, and the recorded
    /// length stays; `false` is returned.
    pub fn install(&mut self, cert: &CannedCert) -> (fitted: bool)
        requires
            old(self)@.wf(),
        ensures
            fitted == old(self)@.fits(cert@),
            final(self)@ == old(self)@.installed(cert@),
            final(self)@.wf(),
    {
        self.signature = cert.signature;
        self.pub_key = cert.pub_key;
        let len = cert.tbs.len();
        if len > self.tbs.len() {
            return false;
        }
        let mut i: usize = 0;
        while i < len
            invariant
                i <= len,
                len == cert.tbs@.len(),
                len <= self.tbs@.len(),
                self.tbs@.len() == old(self).tbs@.len(),
                self.tbs_size == old(self).tbs_size,
                self.signature == cert.signature,
                self.pub_key == cert.pub_key,
                self.tbs@ == cert.tbs@.subrange(0, i as int) + old(self).tbs@.subrange(
                    i as int,
                    old(self).tbs@.len() as int,
                ),
            decreases len - i,
        {
            let byte: u8 = cert.tbs[i];
            self.tbs.set(i, byte);
            assert(self.tbs@ =~= cert.tbs@.subrange(0, i + 1) + old(self).tbs@.subrange(
                i + 1,
                old(self).tbs@.len() as int,
            ));
            i += 1;
        }
        assert(cert.tbs@.subrange(0, len as int) =~= cert.tbs@);
        self.tbs_size = len as u16;
        true
    }
}

impl RomEnv {
    /// The environment at reset: nothing done yet, the accelerator's lock
    /// held, and both slots empty.
    pub fn new(
        reset_reason: ResetReason,
        key_vault: Vec<u32>,
        ldevid_capacity: u16,
        fmc_alias_capacity: u16,
    ) -> (env: RomEnv)
        ensures
            env@.wf(),
            env@.reset_reason == reset_reason,
            env@.key_vault == key_vault@,
            !env@.ready_for_firmware,
            !env@.handoff_table_initialized,
            env@.sha_acc_locked,
            env@.ldevid.tbs == Seq::new(ldevid_capacity as nat, |i: int| 0u8),
            env@.ldevid.tbs_size == 0,
            env@.fmc_alias.tbs == Seq::new(fmc_alias_capacity as nat, |i: int| 0u8),
            env@.fmc_alias.tbs_size == 0,
            env@.journal == Seq::<Effect>::empty(),
    {
        RomEnv {
            reset_reason,
            key_vault,
            ready_for_firmware: false,
            handoff_table_initialized: false,
            sha_acc_locked: true,
            ldevid: CertSlot::new(ldevid_capacity),
            fmc_alias: CertSlot::new(fmc_alias_capacity),
            journal: Vec::new(),
        }
    }

    /// Overwrites every word of the key vault with zero.
    fn zeroize_key_vault(&mut self)
        ensures
            final(self)@ == (RomEnvView {
                key_vault: Seq::new(old(self)@.key_vault.len(), |i: int| 0u32),
                journal: old(self)@.journal.push(Effect::KeyVaultZeroized),
                ..old(self)@
            }),
    {
        let n = self.key_vault.len();
        let mut i: usize = 0;
        while i < n
            invariant
                i <= n,
                n == self.key_vault@.len(),
                forall|k: int| 0 <= k < i ==> self.key_vault@[k] == 0u32,
                self@ == (RomEnvView { key_vault: self.key_vault@, ..old(self)@ }),
            decreases n - i,
        {
            self.key_vault.set(i, 0u32);
            i += 1;
        }
        assert(self.key_vault@ =~= Seq::new(old(self)@.key_vault.len(), |i: int| 0u32));
        self.journal.push(Effect::KeyVaultZeroized);
    }

    /// The first steps of a cold boot, up to the handoff table.
    fn prepare(&mut self)
        ensures
            final(self)@ == old(self)@.prepared(),
    {
        self.journal.push(Effect::ColdResetStarted);
        self.zeroize_key_vault();
        self.ready_for_firmware = true;
        self.journal.push(Effect::ReadyForFirmware);
        self.handoff_table_initialized = true;
        self.journal.push(Effect::HandoffTableInitialized);
        assert(self.journal@ =~= old(self)@.journal + cold_reset_opening());
    }

    /// Takes the accelerator's lock, whatever its state, and gives it
    /// back.
    fn unlock_sha_acc(&mut self)
        ensures
            final(self)@ == old(self)@.with_sha_acc_unlocked(),
    {
        self.sha_acc_locked = true;
        self.journal.push(Effect::ShaAccLockAcquired);
        self.sha_acc_locked = false;
        self.journal.push(Effect::ShaAccLockReleased);
    }
}

/// Installs the device-identity certificate. One that does not fit in its
/// slot leaves the slot's buffer and recorded size as they were.
pub fn copy_canned_ldev_cert(env: &mut RomEnv, cert: &CannedCert) -> (r: Result<(), RomError>)
    requires
        old(env)@.wf(),
    ensures
        final(env)@.wf(),
        final(env)@ == old(env)@.with_ldev_cert(cert@),
        old(env)@.ldevid.fits(cert@) ==> r == Ok::<(), RomError>(()),
        !old(env)@.ldevid.fits(cert@) ==> r == Err::<(), RomError>(
            RomError::UnsupportedLdevidTbsSize,
        ),
{
    if env.ldevid.install(cert) {
        env.journal.push(Effect::LdevCertInstalled);
        Ok(())
    } else {
        Err(RomError::UnsupportedLdevidTbsSize)
    }
}

/// Installs the alias certificate. One that does not fit in its slot leaves
/// the slot's buffer and recorded size as they were.
pub fn copy_canned_fmc_alias_cert(env: &mut RomEnv, cert: &CannedCert) -> (r: Result<
    (),
    RomError,
>)
    requires
        old(env)@.wf(),
    ensures
        final(env)@.wf(),
        final(env)@ == old(env)@.with_fmc_alias_cert(cert@),
        old(env)@.fmc_alias.fits(cert@) ==> r == Ok::<(), RomError>(()),
        !old(env)@.fmc_alias.fits(cert@) ==> r == Err::<(), RomError>(
            RomError::UnsupportedFmcAliasTbsSize,
        ),
{
    if env.fmc_alias.install(cert) {
        env.journal.push(Effect::FmcAliasCertInstalled);
        Ok(())
    } else {
        Err(RomError::UnsupportedFmcAliasTbsSize)
    }
}

impl FakeRomFlow {
    /// Executes the flow that the reset reason names. A cold boot zeroizes
    /// the key vault, tells the platform that firmware may come,
    /// initializes the handoff table, installs the device-identity
    /// certificate, takes and gives back the accelerator's lock, has the
    /// firmware processed and installs the alias certificate, in this
    /// order; the first failure ends it. Warm and update resets are the
    /// work of their collaborators alone. An unknown reason fails and
    /// touches nothing.
    pub fn run(
        env: &mut RomEnv,
        ldev: &CannedCert,
        fmc_alias: &CannedCert,
        outcomes: &CollaboratorOutcomes,
    ) -> (r: Result<(), RomError>)
        requires
            old(env)@.wf(),
        ensures
            final(env)@.wf(),
            r == run_result(old(env)@, ldev@, fmc_alias@, *outcomes),
            final(env)@ == run_env(old(env)@, ldev@, fmc_alias@, *outcomes),
    {
        match FakeRomFlow::begin(env, ldev) {
            FlowStep::Done(r) => r,
            FlowStep::Delegate(collaborator) => {
                let outcome = outcomes.outcome(collaborator);
                FakeRomFlow::resume(env, collaborator, outcome, fmc_alias)
            },
        }
    }

    /// The flow as far as the controller can go alone. A cold boot goes up
    /// to the firmware processor; warm and update resets are delegated at
    /// once; an unknown reason fails and touches nothing.
    pub fn begin(env: &mut RomEnv, ldev: &CannedCert) -> (step: FlowStep)
        requires
            old(env)@.wf(),
        ensures
            final(env)@.wf(),
            step == begin_step(old(env)@, ldev@),
            final(env)@ == begin_env(old(env)@, ldev@),
    {
        match env.reset_reason {
            ResetReason::ColdReset => {
                env.prepare();
                match copy_canned_ldev_cert(env, ldev) {
                    Err(e) => {
                        return FlowStep::Done(Err(e));
                    },
                    Ok(_) => {},
                }
                env.unlock_sha_acc();
                FlowStep::Delegate(Collaborator::FirmwareProcessor)
            },
            ResetReason::WarmReset => FlowStep::Delegate(Collaborator::WarmResetFlow),
            ResetReason::UpdateReset => FlowStep::Delegate(Collaborator::UpdateResetFlow),
            ResetReason::Unknown => FlowStep::Done(Err(RomError::UnknownResetFlow)),
        }
    }

    /// Goes on after a collaborator returned. The outcome of the warm or
    /// update reset flow is the flow's result. A failure of the firmware
    /// processor is returned unchanged; after its success the alias
    /// certificate is installed and the boot status says that the flow is
    /// complete.
    pub fn resume(
        env: &mut RomEnv,
        collaborator: Collaborator,
        outcome: Result<(), RomError>,
        fmc_alias: &CannedCert,
    ) -> (r: Result<(), RomError>)
        requires
            old(env)@.wf(),
        ensures
            final(env)@.wf(),
            r == resume_result(old(env)@, collaborator, outcome, fmc_alias@),
            final(env)@ == resume_env(old(env)@, collaborator, outcome, fmc_alias@),
    {
        match collaborator {
            Collaborator::FirmwareProcessor => {
                match outcome {
                    Err(e) => {
                        return Err(e);
                    },
                    Ok(_) => {},
                }
                match copy_canned_fmc_alias_cert(env, fmc_alias) {
                    Err(e) => {
                        return Err(e);
                    },
                    Ok(_) => {},
                }
                env.journal.push(Effect::ColdResetComplete);
                Ok(())
            },
            _ => outcome,
        }
    }
}

/// The key vault is zeroized before the platform is told that firmware may
/// come, in every execution of the flow: in what the flow adds to the
/// journal, each readiness signal has a zeroization before it. The flow
/// only ever adds to the journal, and a cold boot leaves a key vault of
/// zeros and the readiness flag set.
pub proof fn lemma_zeroize_before_ready(
    env: RomEnvView,
    ldev: CannedCertView,
    fmc_alias: CannedCertView,
    outcomes: CollaboratorOutcomes,
)
    ensures
        zeroized_before_ready(begin_env(env, ldev).journal, env.journal.len() as int),
        zeroized_before_ready(
            run_env(env, ldev, fmc_alias, outcomes).journal,
            env.journal.len() as int,
        ),
        run_env(env, ldev, fmc_alias, outcomes).journal.len() >= env.journal.len(),
        run_env(env, ldev, fmc_alias, outcomes).journal.subrange(0, env.journal.len() as int)
            == env.journal,
        env.reset_reason == ResetReason::ColdReset ==> {
            &&& run_env(env, ldev, fmc_alias, outcomes).ready_for_firmware
            &&& run_env(env, ldev, fmc_alias, outcomes).key_vault == Seq::new(
                env.key_vault.len(),
                |i: int| 0u32,
            )
            &&& records(
                run_env(env, ldev, fmc_alias, outcomes).journal,
                env.journal.len() as int,
                Effect::KeyVaultZeroized,
            )
        },
{
    let base = env.journal.len() as int;
    let begun = begin_env(env, ldev).journal;
    let after = run_env(env, ldev, fmc_alias, outcomes).journal;
    if env.reset_reason == ResetReason::ColdReset {
        let installed = seq![
            Effect::LdevCertInstalled,
            Effect::ShaAccLockAcquired,
            Effect::ShaAccLockReleased,
        ];
        let begun_tail = if env.ldevid.fits(ldev) {
            installed
        } else {
            Seq::<Effect>::empty()
        };
        let after_tail = if !env.ldevid.fits(ldev) {
            Seq::<Effect>::empty()
        } else if outcomes.firmware_processor is Ok && env.fmc_alias.fits(fmc_alias) {
            installed.push(Effect::FmcAliasCertInstalled).push(Effect::ColdResetComplete)
        } else {
            installed
        };
        assert(begun =~= env.journal + cold_reset_opening() + begun_tail);
        assert(after =~= env.journal + cold_reset_opening() + after_tail);
        lemma_opening_orders(env.journal, begun_tail);
        lemma_opening_orders(env.journal, after_tail);
    }
    assert(after.subrange(0, base) =~= env.journal);
}

/// A journal that goes on with the opening of a cold boot, and after it
/// with effects among which no readiness signal is, has the zeroization
/// before the readiness signal.
proof fn lemma_opening_orders(journal: Seq<Effect>, tail: Seq<Effect>)
    requires
        forall|j: int| 0 <= j < tail.len() ==> #[trigger] tail[j] != Effect::ReadyForFirmware,
    ensures
        zeroized_before_ready(journal + cold_reset_opening() + tail, journal.len() as int),
        records(
            journal + cold_reset_opening() + tail,
            journal.len() as int,
            Effect::KeyVaultZeroized,
        ),
{
    let all = journal + cold_reset_opening() + tail;
    let base = journal.len() as int;
    assert(all[base + 1] == Effect::KeyVaultZeroized);
    assert(all[base] == Effect::ColdResetStarted);
    assert(all[base + 3] == Effect::HandoffTableInitialized);
    assert forall|i: int|
        base <= i < all.len() && #[trigger] all[i] == Effect::ReadyForFirmware implies exists|
        k: int,
    |
        base <= k < i && #[trigger] all[k] == Effect::KeyVaultZeroized by {
        if i >= base + 4 {
            assert(all[i] == tail[i - base - 4]);
        }
        assert(all[base + 1] == Effect::KeyVaultZeroized);
    }
}

/// A certificate whose to-be-signed bytes are longer than the slot's buffer
/// leaves the buffer and the recorded size as they were, in the slot and in
/// the environment, and adds nothing to the journal.
pub proof fn lemma_oversized_cert_keeps_size(env: RomEnvView, cert: CannedCertView)
    ensures
        !env.ldevid.fits(cert) ==> {
            &&& env.with_ldev_cert(cert).ldevid.tbs_size == env.ldevid.tbs_size
            &&& env.with_ldev_cert(cert).ldevid.tbs == env.ldevid.tbs
            &&& env.with_ldev_cert(cert).journal == env.journal
            &&& env.with_ldev_cert(cert).fmc_alias == env.fmc_alias
        },
        !env.fmc_alias.fits(cert) ==> {
            &&& env.with_fmc_alias_cert(cert).fmc_alias.tbs_size == env.fmc_alias.tbs_size
            &&& env.with_fmc_alias_cert(cert).fmc_alias.tbs == env.fmc_alias.tbs
            &&& env.with_fmc_alias_cert(cert).journal == env.journal
            &&& env.with_fmc_alias_cert(cert).ldevid == env.ldevid
        },
{
}

/// A certificate that fits is recorded whole: the slot's certificate is
/// then the installed bytes, and the buffer keeps its length.
pub proof fn lemma_installed_cert_reads_back(slot: CertSlotView, cert: CannedCertView)
    requires
        slot.wf(),
        slot.fits(cert),
    ensures
        slot.installed(cert).wf(),
        slot.installed(cert).tbs.len() == slot.tbs.len(),
        slot.installed(cert).tbs.subrange(0, slot.installed(cert).tbs_size as int) == cert.tbs,
{
    assert(slot.installed(cert).tbs.subrange(0, slot.installed(cert).tbs_size as int)
        =~= cert.tbs);
}

/// An unknown reset reason fails the flow and leaves the whole environment
/// as it was: no certificate slot, no key, no flag, no journal entry.
pub proof fn lemma_unknown_reset_touches_nothing(
    env: RomEnvView,
    ldev: CannedCertView,
    fmc_alias: CannedCertView,
    outcomes: CollaboratorOutcomes,
)
    requires
        env.reset_reason == ResetReason::Unknown,
    ensures
        run_result(env, ldev, fmc_alias, outcomes) == Err::<(), RomError>(
            RomError::UnknownResetFlow,
        ),
        run_env(env, ldev, fmc_alias, outcomes) == env,
        begin_step(env, ldev) == FlowStep::Done(Err(RomError::UnknownResetFlow)),
        begin_env(env, ldev) == env,
{
}

/// Warm and update resets are delegated whole: the controller touches
/// nothing, and the collaborator's outcome is the flow's result.
pub proof fn lemma_delegated_resets(
    env: RomEnvView,
    ldev: CannedCertView,
    fmc_alias: CannedCertView,
    outcomes: CollaboratorOutcomes,
)
    ensures
        env.reset_reason == ResetReason::WarmReset ==> {
            &&& run_result(env, ldev, fmc_alias, outcomes) == outcomes.warm_reset_flow
            &&& run_env(env, ldev, fmc_alias, outcomes) == env
        },
        env.reset_reason == ResetReason::UpdateReset ==> {
            &&& run_result(env, ldev, fmc_alias, outcomes) == outcomes.update_reset_flow
            &&& run_env(env, ldev, fmc_alias, outcomes) == env
        },
{
}

/// A cold boot whose firmware processor fails returns that failure
/// unchanged. The journal then says that the flow started, and does not say
/// that it is complete; the alias certificate's slot is as it was.
pub proof fn lemma_firmware_failure_propagates(
    env: RomEnvView,
    ldev: CannedCertView,
    fmc_alias: CannedCertView,
    outcomes: CollaboratorOutcomes,
)
    requires
        env.reset_reason == ResetReason::ColdReset,
        env.ldevid.fits(ldev),
        outcomes.firmware_processor is Err,
    ensures
        run_result(env, ldev, fmc_alias, outcomes) == outcomes.firmware_processor,
        run_env(env, ldev, fmc_alias, outcomes) == begin_env(env, ldev),
        run_env(env, ldev, fmc_alias, outcomes).journal == env.journal + cold_reset_journal(),
        run_env(env, ldev, fmc_alias, outcomes).fmc_alias == env.fmc_alias,
        records(
            run_env(env, ldev, fmc_alias, outcomes).journal,
            env.journal.len() as int,
            Effect::ColdResetStarted,
        ),
        !records(
            run_env(env, ldev, fmc_alias, outcomes).journal,
            env.journal.len() as int,
            Effect::ColdResetComplete,
        ),
{
    let after = run_env(env, ldev, fmc_alias, outcomes).journal;
    let base = env.journal.len() as int;
    assert(after =~= env.journal + cold_reset_journal());
    assert(after[base] == Effect::ColdResetStarted);
    assert forall|i: int| base <= i < after.len() implies #[trigger] after[i]
        != Effect::ColdResetComplete by {
        assert(after[i] == cold_reset_journal()[i - base]);
    }
}

/// A cold boot in which everything succeeds adds these effects to the
/// journal, in this order, and no others.
pub proof fn lemma_cold_reset_journal(
    env: RomEnvView,
    ldev: CannedCertView,
    fmc_alias: CannedCertView,
    outcomes: CollaboratorOutcomes,
)
    requires
        env.reset_reason == ResetReason::ColdReset,
        env.ldevid.fits(ldev),
        env.fmc_alias.fits(fmc_alias),
        outcomes.firmware_processor is Ok,
    ensures
        run_result(env, ldev, fmc_alias, outcomes) == Ok::<(), RomError>(()),
        run_env(env, ldev, fmc_alias, outcomes).journal == env.journal
            + cold_reset_journal().push(Effect::FmcAliasCertInstalled).push(
            Effect::ColdResetComplete,
        ),
        !run_env(env, ldev, fmc_alias, outcomes).sha_acc_locked,
        run_env(env, ldev, fmc_alias, outcomes).handoff_table_initialized,
{
    let begun = begin_env(env, ldev);
    assert(begun.journal =~= env.journal + cold_reset_journal());
    assert(run_env(env, ldev, fmc_alias, outcomes).journal =~= env.journal
        + cold_reset_journal().push(Effect::FmcAliasCertInstalled).push(
        Effect::ColdResetComplete,
    ));
}

} // verus!

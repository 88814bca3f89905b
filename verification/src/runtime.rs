//! The control-plane handler of the signing service: what it answers to
//! each request and what it does when an answer cannot be delivered. The
//! handler decides; whoever runs it delivers the messages and tells it how
//! each delivery went.

use crate::derivation::{derive_keyset, derived_keyset, ChannelKeyset, DeriveError, KeysetView};
use crate::keyfile::{decoded, DecodeError, MasterKeyRecord, RecordView};
use crate::provider::{
    holds_key, is_primary, key_fingerprint, provider_accounts, signable, signing_count,
    signing_outcome,
    KeyProvider, SignFailure, Signed, SigningAccount,
};
use vstd::prelude::*;
use wallet::psbt::Psbt;

verus! {

/// The buses that connect the services of a node.
#[derive(Clone, Copy, Debug, PartialEq, Eq, Structural)]
pub enum ServiceBus {
    /// Messages of the peer-to-peer protocol.
    Msg,
    /// Control messages between the services.
    Ctl,
    /// Requests of clients.
    Rpc,
}

/// The identity of a service on the buses, as far as the signing service
/// names one.
#[derive(Clone, Copy, Debug, PartialEq, Eq)]
pub enum ServiceId {
    /// The signing service.
    Signer,
    /// The service of the channel with the given identifier.
    Channel([u8; 32]),
}

/// A control message.
#[derive(Debug, PartialEq, Eq)]
pub enum CtlMsg {
    /// Sign the transaction with every key that applies.
    Sign(Psbt),
    /// Derive the keyset of the channel with the given identifier.
    DeriveKeyset([u8; 32]),
    /// A control message of another kind, by its type number.
    Other(u16),
}

/// A message on one of the buses.
#[derive(Debug, PartialEq, Eq)]
pub enum BusMsg {
    /// A control message.
    Ctl(CtlMsg),
    /// A message of another family, by its type number.
    Other(u16),
}

/// What the bus reported when a message could not be delivered.
#[derive(Clone, Debug, PartialEq, Eq)]
pub struct TransportError {
    pub details: String,
}

/// The failures of the signing service.
#[derive(Debug)]
pub enum Error {
    /// The key file does not hold a master key record.
    Decode(DecodeError),
    /// The message is none that the service handles on that bus.
    NotSupported { bus: ServiceBus, request: BusMsg },
    /// The transaction could not be signed.
    Signing(SignFailure),
    /// The keyset could not be derived.
    Derivation(DeriveError),
    /// A message could not be delivered.
    Transport(TransportError),
}

/// The answer to a request that was served.
#[derive(Debug, PartialEq, Eq)]
pub enum Answer {
    /// To `Sign`: the signed transaction.
    Signed(Signed),
    /// To `DeriveKeyset`: the service of the channel and the keyset of the
    /// channel.
    Keyset { channel: ServiceId, keyset: ChannelKeyset },
}

/// What is to be done next for a request.
#[derive(Debug)]
pub enum Step {
    /// Deliver `answer` to the origin of `request`.
    Answer { answer: Answer, request: CtlMsg },
    /// Deliver `request` back to its origin, wrapped in `error`.
    Report { request: CtlMsg, error: Error },
    /// Nothing is left to deliver: the handling ends with this result.
    Done(Result<(), Error>),
}

/// The signing service: the network it works on, its key provider, and the
/// account of the provider that it derives from.
pub struct Runtime {
    testnet: bool,
    provider: KeyProvider,
    primary: Option<SigningAccount>,
}

/// The step after signing: the signed transaction is the answer; a failure
/// is reported with the request.
pub open spec fn after_signing(request: Psbt, outcome: Result<Signed, SignFailure>) -> Step {
    match outcome {
        Ok(signed) => Step::Answer { answer: Answer::Signed(signed), request: CtlMsg::Sign(request) },
        Err(error) => Step::Report { request: CtlMsg::Sign(request), error: Error::Signing(error) },
    }
}

/// Whether `step` is the step after a derivation for `channel_id` that
/// ended as `outcome` describes, where `None` stands for a provider without
/// an account: then nothing is answered and the handling ends well.
pub open spec fn is_step_after_derivation(
    step: Step,
    channel_id: Seq<u8>,
    outcome: Option<Result<KeysetView, DeriveError>>,
) -> bool {
    match outcome {
        None => step == Step::Done(Ok(())),
        Some(Ok(view)) => {
            &&& step matches Step::Answer {
                answer: Answer::Keyset { channel: ServiceId::Channel(channel), keyset },
                request: CtlMsg::DeriveKeyset(asked),
            }
            &&& channel@ == channel_id
            &&& asked@ == channel_id
            &&& keyset@ == view
        },
        Some(Err(fault)) => {
            &&& step matches Step::Report {
                request: CtlMsg::DeriveKeyset(asked),
                error: Error::Derivation(error),
            }
            &&& asked@ == channel_id
            &&& error == fault
        },
    }
}

/// The step after a delivery. An answer that arrived ends the handling
/// well; one that did not has the request reported with the transport
/// error. A report that arrived ends the handling with the error reported;
/// one that did not, with the transport error of the report, and nothing
/// more is sent. A handling that is done stays as it is.
pub open spec fn after_delivery(step: Step, outcome: Result<(), TransportError>) -> Step {
    match step {
        Step::Answer { answer, request } => match outcome {
            Ok(_) => Step::Done(Ok(())),
            Err(failure) => Step::Report { request, error: Error::Transport(failure) },
        },
        Step::Report { request, error } => match outcome {
            Ok(_) => Step::Done(Err(error)),
            Err(failure) => Step::Done(Err(Error::Transport(failure))),
        },
        Step::Done(result) => Step::Done(result),
    }
}

/// The step after a `Sign` request was handed to the signing coordinator.
pub fn sign_step(request: Psbt, outcome: Result<Signed, SignFailure>) -> (step: Step)
    ensures
        step == after_signing(request, outcome),
{
    match outcome {
        Ok(signed) => Step::Answer { answer: Answer::Signed(signed), request: CtlMsg::Sign(request) },
        Err(error) => Step::Report { request: CtlMsg::Sign(request), error: Error::Signing(error) },
    }
}

/// The step after a `DeriveKeyset` request: `None` where the provider had
/// no account to derive from.
pub fn keyset_step(
    channel_id: [u8; 32],
    outcome: Option<Result<ChannelKeyset, DeriveError>>,
) -> (step: Step)
    ensures
        is_step_after_derivation(
            step,
            channel_id@,
            match outcome {
                None => None,
                Some(Ok(keyset)) => Some(Ok(keyset@)),
                Some(Err(fault)) => Some(Err(fault)),
            },
        ),
{
    match outcome {
        None => Step::Done(Ok(())),
        Some(Ok(keyset)) => Step::Answer {
            answer: Answer::Keyset { channel: ServiceId::Channel(channel_id), keyset },
            request: CtlMsg::DeriveKeyset(channel_id),
        },
        Some(Err(fault)) => Step::Report {
            request: CtlMsg::DeriveKeyset(channel_id),
            error: Error::Derivation(fault),
        },
    }
}

impl Step {
    /// The step after the message of this step was handed to the bus, with
    /// what the bus said of it.
    pub fn delivered(self, outcome: Result<(), TransportError>) -> (next: Step)
        ensures
            next == after_delivery(self, outcome),
    {
        match self {
            Step::Answer { answer, request } => match outcome {
                Ok(_) => Step::Done(Ok(())),
                Err(failure) => Step::Report { request, error: Error::Transport(failure) },
            },
            Step::Report { request, error } => match outcome {
                Ok(_) => Step::Done(Err(error)),
                Err(failure) => Step::Done(Err(Error::Transport(failure))),
            },
            Step::Done(result) => Step::Done(result),
        }
    }
}

impl Runtime {
    /// Whether the service works on a test network.
    pub closed spec fn testnet(&self) -> bool {
        self.testnet
    }

    /// The accounts of the service.
    pub closed spec fn accounts(&self) -> Set<RecordView> {
        provider_accounts(self.provider)
    }

    /// The account that the service derives from. It is chosen when the
    /// service is set up and stays the same from then on.
    pub closed spec fn primary(&self) -> Option<SigningAccount> {
        self.primary
    }

    #[verifier::type_invariant]
    closed spec fn inv(self) -> bool {
        is_primary(self.primary, provider_accounts(self.provider))
    }

    /// How a derivation for `channel_id` ends: with the keyset below the
    /// key of the primary account, with the fault of that derivation, or
    /// with nothing where there is no account.
    pub open spec fn derivation(&self, channel_id: Seq<u8>) -> Option<Result<KeysetView, DeriveError>> {
        match self.primary() {
            Some(account) => Some(
                derived_keyset(account.xpriv@, account.fingerprint@, channel_id, self.testnet()),
            ),
            None => None,
        }
    }

    /// Whether `step` answers a `DeriveKeyset` request for `channel_id`.
    pub open spec fn answers_derivation(&self, step: Step, channel_id: Seq<u8>) -> bool {
        is_step_after_derivation(step, channel_id, self.derivation(channel_id))
    }

    /// Whether `step` answers a `Sign` request for `psbt`: it is the step
    /// after an outcome of signing `psbt` with the accounts of the service.
    pub open spec fn answers_signing(&self, step: Step, psbt: Psbt) -> bool {
        exists|outcome: Result<Signed, SignFailure>|
            signing_outcome(outcome, psbt, self.accounts()) && step == #[trigger] after_signing(
                psbt,
                outcome,
            )
    }

    /// Whether `step` is what the service does on `message` from `bus`.
    pub open spec fn handles(&self, bus: ServiceBus, message: BusMsg, step: Step) -> bool {
        match (bus, message) {
            (ServiceBus::Ctl, BusMsg::Ctl(CtlMsg::Sign(psbt))) => self.answers_signing(step, psbt),
            (ServiceBus::Ctl, BusMsg::Ctl(CtlMsg::DeriveKeyset(channel_id))) => self.answers_derivation(
                step,
                channel_id@,
            ),
            _ => step == Step::Done(Err(Error::NotSupported { bus, request: message })),
        }
    }

    /// The key provider of a service: the provider that holds the account
    /// of the master key record in `key_file` and no other. A key file that
    /// is cut short or broken gives its fault and no provider.
    pub fn provider(key_file: &[u8]) -> (r: Result<KeyProvider, Error>)
        ensures
            match decoded(key_file@) {
                Ok(record) => r matches Ok(provider) && provider_accounts(provider)
                    == Set::<RecordView>::empty().insert(record),
                Err(fault) => r matches Err(Error::Decode(error)) && error == fault,
            },
    {
        match MasterKeyRecord::decode(key_file) {
            Ok(record) => {
                let mut provider = KeyProvider::new();
                let ghost none = provider_accounts(provider);
                assert(!holds_key(none, record@.xpriv));
                provider.add_account(&record);
                Ok(provider)
            },
            Err(fault) => Err(Error::Decode(fault)),
        }
    }

    /// Sets the service up for a network with the master key record in
    /// `key_file`. There is no service without its key: a key file that is
    /// cut short or broken gives its fault and nothing else.
    pub fn with(testnet: bool, key_file: &[u8]) -> (r: Result<Runtime, Error>)
        ensures
            match decoded(key_file@) {
                Ok(record) => {
                    &&& r matches Ok(runtime)
                    &&& runtime.testnet() == testnet
                    &&& runtime.accounts() == Set::<RecordView>::empty().insert(record)
                    &&& runtime.primary() matches Some(account)
                    &&& account.xpriv@ == record.xpriv
                    &&& account.fingerprint@ == key_fingerprint(record.xpriv)
                },
                Err(fault) => r matches Err(Error::Decode(error)) && error == fault,
            },
    {
        match Runtime::provider(key_file) {
            Ok(provider) => {
                let runtime = Runtime::with_provider(testnet, provider);
                proof {
                    let record = decoded(key_file@).unwrap();
                    assert(runtime.accounts().contains(record));
                    assert(!(runtime.accounts() =~= Set::<RecordView>::empty()));
                }
                Ok(runtime)
            },
            Err(error) => Err(error),
        }
    }

    /// Sets the service up with a provider made elsewhere. The account that
    /// the provider names as its primary one is the one that the service
    /// derives from.
    pub fn with_provider(testnet: bool, provider: KeyProvider) -> (runtime: Runtime)
        ensures
            runtime.testnet() == testnet,
            runtime.accounts() == provider_accounts(provider),
            is_primary(runtime.primary(), provider_accounts(provider)),
    {
        let primary = provider.primary_account();
        Runtime { testnet, provider, primary }
    }

    /// The account that the service derives from.
    pub fn primary_account(&self) -> (account: Option<SigningAccount>)
        ensures
            account == self.primary(),
            is_primary(account, self.accounts()),
    {
        proof {
            use_type_invariant(self);
        }
        self.primary
    }

    /// The identity under which the service is known on the buses.
    pub fn identity(&self) -> (id: ServiceId)
        ensures
            id == ServiceId::Signer,
    {
        ServiceId::Signer
    }

    /// Handles a message that arrived on a bus. Control messages on the
    /// control bus are served; anything else is refused as not supported,
    /// with nothing sent and nothing changed.
    pub fn handle(&self, bus: ServiceBus, message: BusMsg) -> (step: Step)
        ensures
            self.handles(bus, message, step),
    {
        match (bus, message) {
            (ServiceBus::Ctl, BusMsg::Ctl(request)) => self.handle_ctl(request),
            (bus, message) => Step::Done(Err(Error::NotSupported { bus, request: message })),
        }
    }

    /// Handles a control message. `Sign` and `DeriveKeyset` are served; a
    /// control message of another kind is refused as not supported.
    pub fn handle_ctl(&self, message: CtlMsg) -> (step: Step)
        ensures
            self.handles(ServiceBus::Ctl, BusMsg::Ctl(message), step),
    {
        match message {
            CtlMsg::Sign(psbt) => {
                let outcome = self.provider.sign(&psbt);
                sign_step(psbt, outcome)
            },
            CtlMsg::DeriveKeyset(channel_id) => {
                match self.primary {
                    Some(account) => {
                        let outcome = derive_keyset(&account, &channel_id, self.testnet);
                        keyset_step(channel_id, Some(outcome))
                    },
                    None => keyset_step(channel_id, None),
                }
            },
            other => Step::Done(
                Err(Error::NotSupported { bus: ServiceBus::Ctl, request: BusMsg::Ctl(other) }),
            ),
        }
    }

    /// Takes note of a failure of the bus itself. The failure is not passed
    /// on: whoever runs the service would stop on it.
    pub fn handle_err(&self, failure: TransportError) -> (r: Result<(), Error>)
        ensures
            r == Ok::<(), Error>(()),
    {
        Ok(())
    }
}

/// A message is served when it is a `Sign` or a `DeriveKeyset` request on
/// the control bus.
pub open spec fn is_served(bus: ServiceBus, message: BusMsg) -> bool {
    &&& bus == ServiceBus::Ctl
    &&& message matches BusMsg::Ctl(request)
    &&& (request is Sign || request is DeriveKeyset)
}

/// Whatever is not served ends at once with the error that names the bus
/// and the message. Nothing is to be delivered, and the service, which the
/// handler only reads, is as before.
pub proof fn lemma_unserved_is_refused(
    runtime: Runtime,
    bus: ServiceBus,
    message: BusMsg,
    step: Step,
)
    requires
        runtime.handles(bus, message, step),
        !is_served(bus, message),
    ensures
        step == Step::Done(Err(Error::NotSupported { bus, request: message })),
{
}

/// A request that is served is never refused as not supported.
pub proof fn lemma_served_is_not_refused(
    runtime: Runtime,
    bus: ServiceBus,
    message: BusMsg,
    step: Step,
)
    requires
        runtime.handles(bus, message, step),
        is_served(bus, message),
    ensures
        !(step matches Step::Done(Err(Error::NotSupported { .. }))),
{
}

/// A signing that added no signature is answered like any other: a count
/// of zero is no failure, and once the answer is delivered the request has
/// ended well.
pub proof fn lemma_no_signature_is_no_failure(request: Psbt, signed: Signed)
    requires
        signed.signatures == 0,
    ensures
        after_signing(request, Ok(signed)) == (Step::Answer {
            answer: Answer::Signed(signed),
            request: CtlMsg::Sign(request),
        }),
        after_delivery(after_signing(request, Ok(signed)), Ok(())) == Step::Done(Ok(())),
{
}

/// A signing on which the signer has nothing to add changes nothing: where
/// the transaction can be handed to the signer, the signer counts no
/// signature on it and the request is answered, the answer is the
/// transaction as it was handed in, with a count of zero.
pub proof fn lemma_nothing_to_add_changes_nothing(runtime: Runtime, psbt: Psbt, step: Step)
    requires
        runtime.answers_signing(step, psbt),
        signable(psbt, runtime.accounts()),
        signing_count(psbt, runtime.accounts()) == 0,
        step is Answer,
    ensures
        step matches Step::Answer { answer: Answer::Signed(signed), .. } && signed.signatures == 0
            && signed.psbt == psbt,
{
}

/// A service answers two `DeriveKeyset` requests for one channel alike,
/// however many accounts it has: with the same fingerprint, path and
/// channel key, with the same fault, or both times with nothing.
pub proof fn lemma_same_channel_same_answer(
    runtime: Runtime,
    channel_id: Seq<u8>,
    first: Step,
    second: Step,
)
    requires
        runtime.answers_derivation(first, channel_id),
        runtime.answers_derivation(second, channel_id),
    ensures
        (first matches Step::Answer { answer: Answer::Keyset { keyset: one, .. }, .. } ==> (
        second matches Step::Answer { answer: Answer::Keyset { keyset: two, .. }, .. } && one@
            == two@)),
        (first matches Step::Report { error: Error::Derivation(one), .. } ==> (
        second matches Step::Report { error: Error::Derivation(two), .. } && one == two)),
        first is Done ==> second == first,
{
}

/// Whatever the bus says, a request is finished after two deliveries at
/// most: the answer, and the report that the answer did not arrive.
pub proof fn lemma_two_deliveries_end_a_request(
    step: Step,
    first: Result<(), TransportError>,
    second: Result<(), TransportError>,
)
    ensures
        after_delivery(after_delivery(step, first), second) is Done,
        step is Report ==> after_delivery(step, first) is Done,
{
}

/// A failure on the way is never lost: a request ends well only if its
/// answer was delivered, or if there was nothing to answer.
pub proof fn lemma_only_a_delivered_answer_ends_well(
    step: Step,
    outcome: Result<(), TransportError>,
)
    requires
        after_delivery(step, outcome) == Step::Done(Ok(())),
    ensures
        (step is Answer && outcome is Ok) || step == Step::Done(Ok(())),
{
}

} // verus!

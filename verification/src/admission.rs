//! How a command starts: old receipts are pruned, the intent is hashed, and the
//! command is claimed. What was done before is answered from its receipt.

use vstd::prelude::*;
use vstd::string::*;
use vstd::utf8::*;

use crate::crypto::{digest, opened_receipt, sha256_digest, ReceiptCipher};
use crate::error::{CryptoError, Failure, ServiceAccountPluginError};
use crate::rows::{CommandClaim, CommandKey, CommandKeyView};
use crate::text::copy_bytes;

verus! {

/// Where the start of a command stands. The first three states ask for outside
/// work, the others are the outcome.
pub enum Admission {
    /// Drop the commands that were completed more than `retention_seconds` ago.
    Prune { command: CommandKey, actor: Option<String>, retention_seconds: u64 },
    /// Serialize the request, together with the acting user if there is one.
    EncodeIntent { command: CommandKey, actor: Option<String> },
    /// Claim the command with the hash of its intent.
    Claim { command: CommandKey, intent: Vec<u8> },
    /// The command is new and is to be carried out.
    Admitted { command: CommandKey },
    /// The command succeeded before; this is its receipt.
    Replayed { receipt: Vec<u8> },
    Refused(Refusal),
    Failed(Failure),
}

/// Why a command is not carried out.
pub enum Refusal {
    /// It failed before with this code.
    Recorded(String),
    /// Its key was used with another intent.
    Conflict,
    /// It was started before and is not completed.
    InProgress,
}

/// Outside work that was done.
pub enum AdmissionEvent {
    Pruned,
    IntentEncoded(Result<Vec<u8>, serde_json::Error>),
    Claimed(CommandClaim),
}

/// What a receipt is bound to: caller, operation and idempotency key, separated
/// by zero bytes.
pub open spec fn receipt_binding(command: CommandKeyView) -> Seq<u8> {
    encode_utf8(
        command.caller + seq!['\0'] + command.operation + seq!['\0'] + command.idempotency_key,
    )
}

/// What a receipt is bound to.
pub fn receipt_aad(caller: &str, operation: &str, idempotency_key: &str) -> (r: Vec<u8>)
    ensures
        r@ == receipt_binding(
            CommandKeyView {
                caller: caller@,
                operation: operation@,
                idempotency_key: idempotency_key@,
            },
        ),
{
    let mut text: String = caller.to_string();
    text.push('\0');
    text.append(operation);
    text.push('\0');
    text.append(idempotency_key);
    assert(text@ =~= caller@ + seq!['\0'] + operation@ + seq!['\0'] + idempotency_key@);
    copy_bytes(text.as_str().as_bytes())
}

/// What the receipt of a command is bound to.
pub fn command_aad(command: &CommandKey) -> (r: Vec<u8>)
    ensures
        r@ == receipt_binding(command@),
{
    receipt_aad(
        command.caller.as_str(),
        command.operation.as_str(),
        command.idempotency_key.as_str(),
    )
}

/// `sealed` is the outcome of writing `response` as a receipt: what `encode`
/// made of it, encrypted and bound to a command, or the first failure.
pub open spec fn seals<R, E>(
    key: Seq<u8>,
    binding: Seq<u8>,
    response: &R,
    encode: E,
    sealed: Result<(Vec<u8>, Vec<u8>), ServiceAccountPluginError>,
) -> bool where E: FnOnce(&R) -> Result<Vec<u8>, serde_json::Error> {
    match sealed {
        Ok((nonce, ciphertext)) => exists|bytes: Vec<u8>|
            {
                &&& #[trigger] call_ensures(
                    encode,
                    (response,),
                    Ok::<_, serde_json::Error>(bytes),
                )
                &&& opened_receipt(key, nonce@, ciphertext@, binding) == Some(bytes@)
            },
        Err(ServiceAccountPluginError::Crypto(error)) => match error {
            CryptoError::Serialize(error) => call_ensures(
                encode,
                (response,),
                Err::<Vec<u8>, _>(error),
            ),
            CryptoError::Random(_) => true,
            CryptoError::ReceiptEncryption => exists|bytes: Vec<u8>|
                {
                    &&& #[trigger] call_ensures(
                        encode,
                        (response,),
                        Ok::<_, serde_json::Error>(bytes),
                    )
                    &&& bytes@.len() > 0x10_0000_0000 || binding.len() > 0x10_0000_0000
                },
            _ => false,
        },
        Err(_) => false,
    }
}

/// `decoded` is what is read of a receipt: where `encode` wrote it, the response
/// that was written.
pub open spec fn reads_back<R, E>(encode: E, receipt: Seq<u8>, decoded: R) -> bool where
    E: FnOnce(&R) -> Result<Vec<u8>, serde_json::Error>,
 {
    forall|response: &R, bytes: Vec<u8>|
        #[trigger] call_ensures(encode, (response,), Ok::<_, serde_json::Error>(bytes)) && bytes@
            == receipt ==> decoded == *response
}

/// Writes `response` as the receipt of a command.
pub fn seal_receipt<R, E>(
    cipher: &ReceiptCipher,
    command: &CommandKey,
    response: &R,
    encode: E,
) -> (sealed: Result<(Vec<u8>, Vec<u8>), ServiceAccountPluginError>) where
    E: FnOnce(&R) -> Result<Vec<u8>, serde_json::Error>,

    requires
        call_requires(encode, (response,)),
    ensures
        seals(cipher.key(), receipt_binding(command@), response, encode, sealed),
{
    let encoded: Result<Vec<u8>, serde_json::Error> = encode(response);
    match encoded {
        Err(error) => Err(ServiceAccountPluginError::Crypto(CryptoError::Serialize(error))),
        Ok(bytes) => {
            let aad: Vec<u8> = command_aad(command);
            assert(call_ensures(encode, (response,), Ok::<_, serde_json::Error>(bytes)));
            match cipher.encrypt(bytes.as_slice(), aad.as_slice()) {
                Ok(sealed) => Ok(sealed),
                Err(error) => Err(ServiceAccountPluginError::Crypto(error)),
            }
        },
    }
}

impl Admission {
    /// The start of a command.
    pub open spec fn is_start(
        self,
        command: CommandKeyView,
        actor: Option<String>,
        retention_seconds: u64,
    ) -> bool {
        &&& self matches Admission::Prune { command: own, actor: acting, retention_seconds: kept }
        &&& own@ == command
        &&& acting == actor
        &&& kept == retention_seconds
    }

    pub fn start(
        caller: String,
        operation: &str,
        idempotency_key: &str,
        actor: Option<String>,
        retention_seconds: u64,
    ) -> (r: Admission)
        ensures
            r.is_start(
                CommandKeyView {
                    caller: caller@,
                    operation: operation@,
                    idempotency_key: idempotency_key@,
                },
                actor,
                retention_seconds,
            ),
    {
        Admission::Prune {
            command: CommandKey {
                caller,
                operation: operation.to_string(),
                idempotency_key: idempotency_key.to_string(),
            },
            actor,
            retention_seconds,
        }
    }

    /// `next` is where the start of the command goes on after `event`.
    pub open spec fn steps_to(
        self,
        cipher: ReceiptCipher,
        event: AdmissionEvent,
        next: Admission,
    ) -> bool {
        match (self, event) {
            (Admission::Prune { command, actor, retention_seconds }, AdmissionEvent::Pruned) => {
                next == Admission::EncodeIntent { command, actor }
            },
            (
                Admission::EncodeIntent { command, actor },
                AdmissionEvent::IntentEncoded(encoded),
            ) => match encoded {
                Ok(bytes) => {
                    &&& next matches Admission::Claim { command: own, intent }
                    &&& own == command
                    &&& intent@ == sha256_digest(bytes@)
                },
                Err(error) => next == Admission::Failed(
                    Failure::Plugin(ServiceAccountPluginError::SerializeReceipt(error)),
                ),
            },
            (Admission::Claim { command, intent }, AdmissionEvent::Claimed(claim)) => match claim {
                CommandClaim::Claimed => next == Admission::Admitted { command },
                CommandClaim::CompletedSuccess { nonce, ciphertext } => {
                    match opened_receipt(
                        cipher.key(),
                        nonce@,
                        ciphertext@,
                        receipt_binding(command@),
                    ) {
                        Some(bytes) => {
                            next matches Admission::Replayed { receipt } && receipt@ == bytes
                        },
                        None => next == Admission::Failed(
                            Failure::Plugin(
                                ServiceAccountPluginError::Crypto(CryptoError::ReceiptDecryption),
                            ),
                        ),
                    }
                },
                CommandClaim::CompletedError(code) => next == Admission::Refused(
                    Refusal::Recorded(code),
                ),
                CommandClaim::Conflict => next == Admission::Refused(Refusal::Conflict),
                CommandClaim::InProgress => next == Admission::Refused(Refusal::InProgress),
            },
            _ => next == Admission::Failed(Failure::UnexpectedReply),
        }
    }

    /// Goes on after `event`.
    pub fn resume(self, cipher: &ReceiptCipher, event: AdmissionEvent) -> (next: Admission)
        ensures
            self.steps_to(*cipher, event, next),
    {
        match (self, event) {
            (Admission::Prune { command, actor, retention_seconds: _ }, AdmissionEvent::Pruned) => {
                Admission::EncodeIntent { command, actor }
            },
            (
                Admission::EncodeIntent { command, actor: _ },
                AdmissionEvent::IntentEncoded(encoded),
            ) => match encoded {
                Ok(bytes) => Admission::Claim { command, intent: digest(bytes.as_slice()) },
                Err(error) => Admission::Failed(
                    Failure::Plugin(ServiceAccountPluginError::SerializeReceipt(error)),
                ),
            },
            (Admission::Claim { command, intent: _ }, AdmissionEvent::Claimed(claim)) => match claim {
                CommandClaim::Claimed => Admission::Admitted { command },
                CommandClaim::CompletedSuccess { nonce, ciphertext } => {
                    let aad: Vec<u8> = command_aad(&command);
                    match cipher.decrypt(
                        nonce.as_slice(),
                        ciphertext.as_slice(),
                        aad.as_slice(),
                    ) {
                        Ok(receipt) => Admission::Replayed { receipt },
                        Err(error) => Admission::Failed(
                            Failure::Plugin(ServiceAccountPluginError::Crypto(error)),
                        ),
                    }
                },
                CommandClaim::CompletedError(code) => Admission::Refused(Refusal::Recorded(code)),
                CommandClaim::Conflict => Admission::Refused(Refusal::Conflict),
                CommandClaim::InProgress => Admission::Refused(Refusal::InProgress),
            },
            _ => Admission::Failed(Failure::UnexpectedReply),
        }
    }
}

spec fn zero_free(text: Seq<char>) -> bool {
    forall|i: int| 0 <= i < text.len() ==> #[trigger] text[i] != '\0'
}

/// Texts joined by a zero can be taken apart again.
proof fn lemma_split_at_zero(a: Seq<char>, rest_a: Seq<char>, b: Seq<char>, rest_b: Seq<char>)
    requires
        zero_free(a),
        zero_free(b),
        a + seq!['\0'] + rest_a == b + seq!['\0'] + rest_b,
    ensures
        a == b,
        rest_a == rest_b,
{
    let left = a + seq!['\0'] + rest_a;
    let right = b + seq!['\0'] + rest_b;
    if a.len() < b.len() {
        assert(left[a.len() as int] == '\0');
        assert(right[a.len() as int] == b[a.len() as int]);
    }
    if b.len() < a.len() {
        assert(right[b.len() as int] == '\0');
        assert(left[b.len() as int] == a[b.len() as int]);
    }
    assert forall|i: int| 0 <= i < a.len() implies a[i] == b[i] by {
        assert(left[i] == a[i] && right[i] == b[i]);
    }
    assert(a =~= b);
    assert(left.len() == a.len() + 1 + rest_a.len());
    assert(right.len() == b.len() + 1 + rest_b.len());
    assert forall|i: int| 0 <= i < rest_a.len() implies rest_a[i] == rest_b[i] by {
        assert(left[a.len() + 1 + i] == rest_a[i] && right[a.len() + 1 + i] == rest_b[i]);
    }
    assert(rest_a =~= rest_b);
}

/// Receipts of different commands are bound to different data: the binding gives
/// back caller, operation and idempotency key. A zero character, which no
/// identifier has, would blur where one ends.
pub proof fn receipts_are_bound_to_their_command(a: CommandKeyView, b: CommandKeyView)
    requires
        !a.caller.contains('\0'),
        !a.operation.contains('\0'),
        !b.caller.contains('\0'),
        !b.operation.contains('\0'),
        receipt_binding(a) == receipt_binding(b),
    ensures
        a == b,
{
    let z = seq!['\0'];
    let text_a = a.caller + z + a.operation + z + a.idempotency_key;
    let text_b = b.caller + z + b.operation + z + b.idempotency_key;
    encode_utf8_decode_utf8(text_a);
    encode_utf8_decode_utf8(text_b);
    assert(text_a == text_b);
    let rest_a = a.operation + z + a.idempotency_key;
    let rest_b = b.operation + z + b.idempotency_key;
    assert(text_a =~= a.caller + z + rest_a);
    assert(text_b =~= b.caller + z + rest_b);
    lemma_split_at_zero(a.caller, rest_a, b.caller, rest_b);
    lemma_split_at_zero(a.operation, a.idempotency_key, b.operation, b.idempotency_key);
}

/// A receipt sealed for a command is what a later claim of that command replays.
pub proof fn a_sealed_receipt_is_replayed(
    cipher: ReceiptCipher,
    command: CommandKey,
    intent: Vec<u8>,
    nonce: Vec<u8>,
    ciphertext: Vec<u8>,
    receipt: Seq<u8>,
    next: Admission,
)
    requires
        opened_receipt(cipher.key(), nonce@, ciphertext@, receipt_binding(command@)) == Some(
            receipt,
        ),
        (Admission::Claim { command, intent }).steps_to(
            cipher,
            AdmissionEvent::Claimed(CommandClaim::CompletedSuccess { nonce, ciphertext }),
            next,
        ),
    ensures
        next matches Admission::Replayed { receipt: replayed } && replayed@ == receipt,
{
}

} // verus!

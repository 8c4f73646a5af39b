//! What access the daemon comes to, from what it is given to what it gives back.
use vstd::prelude::*;
use vstd::utf8::*;
use crate::daemon::access;
use crate::daemon::access::AccessEnvironment;
use crate::daemon::config::{AccessConfiguration, AccessModel};
use crate::daemon::origin::IpAddress;
use crate::daemon::precedence;

verus! {

/// Where the daemon comes to token access, its token file, its origin and its TLS files are those of
/// the environment wherever they stand there, and otherwise the configured ones.
pub proof fn law_the_environment_decides_first(
    current: AccessConfiguration,
    environment: &AccessEnvironment,
    addresses: &[Option<IpAddress>],
    result: Result<AccessConfiguration, String>,
    token_file: Seq<u8>,
    public_origin: Seq<char>,
    tls: Option<(Seq<u8>, Seq<u8>)>,
)
    requires
        call_ensures(
            access::apply_access_environment_values,
            (current, environment, addresses),
            result,
        ),
        result is Ok,
        result->Ok_0@ == (AccessModel::Token { token_file, public_origin, tls }),
    ensures
        environment.token_file is Some ==> token_file == environment.token_file->0@,
        environment.token_file is None ==> (current@ matches AccessModel::Token {
            token_file: configured,
            ..
        } && configured == token_file),
        environment.public_origin is Some ==> public_origin == decode_utf8(environment.public_origin->0@),
        environment.public_origin is None ==> (current@ matches AccessModel::Token {
            public_origin: configured,
            ..
        } && configured == public_origin),
        environment.tls_certificate is Some ==> tls is Some && (tls->0).0 == environment.tls_certificate->0@,
        environment.tls_private_key is Some ==> tls is Some && (tls->0).1 == environment.tls_private_key->0@,
        environment.mode is Some ==> decode_utf8(environment.mode->0@) == "token"@,
        environment.mode is None ==> current@ is Token,
{
    let parts = access::parts_of(access::selected_origin(current@, environment@));
    precedence::law_environment_outweighs_token_access(
        current@,
        environment@,
        addresses@,
        parts,
        token_file,
        public_origin,
        tls,
    );
    precedence::law_access_mode_is_the_named_one(current@, environment@, addresses@, parts);
}

} // verus!

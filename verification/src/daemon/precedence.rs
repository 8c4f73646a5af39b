//! The environment outweighs the configuration file: each variable that is set is what the daemon
//! goes by, and what is not set stays as it was configured.
use vstd::prelude::*;
use vstd::utf8::*;
use crate::daemon::access;
use crate::daemon::access::EnvironmentModel;
use crate::daemon::config;
use crate::daemon::config::AccessModel;
use crate::daemon::origin;
use crate::daemon::origin::{IpAddress, PartsModel};
use crate::path;
use crate::text;

verus! {

proof fn lemma_mode_names()
    ensures
        "local"@.len() == 5 && "local"@[0] == 'l',
        "token"@.len() == 5 && "token"@[0] == 't',
        "trusted_proxy"@.len() == 13,
{
    reveal_strlit("local");
    reveal_strlit("token");
    reveal_strlit("trusted_proxy");
}

/// The access mode is the one that `GLIM_ACCESS_MODE` names, and where it names none the configured
/// one. Any other name is refused.
pub proof fn law_access_mode_is_the_named_one(
    current: AccessModel,
    environment: EnvironmentModel,
    addresses: Seq<Option<IpAddress>>,
    parts: Option<PartsModel>,
)
    ensures
        ({
            let after = access::access_after(current, environment, addresses, parts);
            &&& environment.mode is None && after is Ok ==> {
                &&& after->Ok_0 is Local <==> current is Local
                &&& after->Ok_0 is Token <==> current is Token
                &&& after->Ok_0 is TrustedProxy <==> current is TrustedProxy
            }
            &&& environment.mode matches Some(name) ==> {
                &&& decode_utf8(name) == "local"@ && after is Ok ==> after->Ok_0 is Local
                &&& decode_utf8(name) == "token"@ && after is Ok ==> after->Ok_0 is Token
                &&& decode_utf8(name) == "trusted_proxy"@ && after is Ok ==> after->Ok_0 is TrustedProxy
                &&& after is Ok ==> valid_utf8(name) && (decode_utf8(name) == "local"@ || decode_utf8(
                    name,
                ) == "token"@ || decode_utf8(name) == "trusted_proxy"@)
            }
        }),
{
    lemma_mode_names();
}

/// Where the daemon comes to token access, its token file, its origin, its certificate and its key
/// are the values of `GLIM_TOKEN_FILE`, `GLIM_PUBLIC_ORIGIN`, `GLIM_TLS_CERTIFICATE` and
/// `GLIM_TLS_PRIVATE_KEY` whenever those are set, whatever was configured, and the configured ones
/// of token access otherwise.
pub proof fn law_environment_outweighs_token_access(
    current: AccessModel,
    environment: EnvironmentModel,
    addresses: Seq<Option<IpAddress>>,
    parts: Option<PartsModel>,
    token_file: Seq<u8>,
    public_origin: Seq<char>,
    tls: Option<(Seq<u8>, Seq<u8>)>,
)
    requires
        access::access_after(current, environment, addresses, parts) == Ok::<AccessModel, Seq<char>>(
            AccessModel::Token { token_file, public_origin, tls },
        ),
    ensures
        environment.token_file matches Some(value) ==> token_file == value,
        environment.public_origin matches Some(value) ==> public_origin == decode_utf8(value),
        environment.tls_certificate matches Some(value) ==> (tls matches Some(pair) && pair.0
            == value),
        environment.tls_private_key matches Some(value) ==> (tls matches Some(pair) && pair.1
            == value),
        environment.token_file is None ==> current is Token && token_file == current->token_file,
        environment.public_origin is None ==> current is Token && public_origin
            == current->Token_public_origin,
        environment.tls_certificate is None && tls is Some ==> current is Token && current->tls is Some
            && (tls->0).0 == (current->tls->0).0,
        environment.tls_private_key is None && tls is Some ==> current is Token && current->tls is Some
            && (tls->0).1 == (current->tls->0).1,
        tls is None ==> environment.tls_certificate is None && environment.tls_private_key is None
            && (current is Token ==> current->tls is None),
        environment.trusted_proxy_ips is None,
{
    lemma_mode_names();
}

/// The distinct proxies are the addresses of the entries, each once and none besides.
proof fn lemma_proxies_are_the_addresses(
    entries: Seq<Seq<char>>,
    addresses: Seq<Option<IpAddress>>,
    count: int,
    ips: Seq<IpAddress>,
)
    requires
        access::proxies_of(entries, addresses, count) == Ok::<Seq<IpAddress>, Seq<char>>(ips),
    ensures
        forall|i: int|
            0 <= i < count ==> i < addresses.len() && (#[trigger] addresses[i]) is Some && ips.contains(
                addresses[i]->0,
            ),
        forall|k: int| 0 <= k < ips.len() ==> is_address_of(addresses, count, #[trigger] ips[k]),
    decreases count,
{
    if count > 0 {
        let before = access::proxies_of(entries, addresses, count - 1)->Ok_0;
        lemma_proxies_are_the_addresses(entries, addresses, count - 1, before);
        let last = addresses[count - 1]->0;
        assert(is_address_of(addresses, count, last)) by {
            assert(addresses[count - 1] == Some(last));
        }
        assert forall|k: int| 0 <= k < ips.len() implies is_address_of(
            addresses,
            count,
            #[trigger] ips[k],
        ) by {
            if k < before.len() {
                assert(ips[k] == before[k]);
                assert(is_address_of(addresses, count - 1, before[k]));
                let i = choose|i: int| 0 <= i < count - 1 && addresses[i] == Some(before[k]);
                assert(0 <= i < count && addresses[i] == Some(before[k]));
            }
        }
        assert forall|i: int| 0 <= i < count implies i < addresses.len() && (#[trigger] addresses[i])
            is Some && ips.contains(addresses[i]->0) by {
            if i < count - 1 {
                assert(before.contains(addresses[i]->0));
                let k = choose|k: int| 0 <= k < before.len() && before[k] == addresses[i]->0;
                assert(ips[k] == before[k]);
            } else if !before.contains(last) {
                assert(ips[before.len() as int] == last);
            }
        }
    }
}

/// Whether an address is the one of an entry among the first.
pub open spec fn is_address_of(
    addresses: Seq<Option<IpAddress>>,
    count: int,
    address: IpAddress,
) -> bool {
    exists|i: int| 0 <= i < count && #[trigger] addresses[i] == Some(address)
}

/// Where the daemon comes to trusted-proxy access, its proxies are the addresses of the entries of
/// `GLIM_TRUSTED_PROXY_IPS` and no others, and its origin is the value of `GLIM_PUBLIC_ORIGIN`,
/// whenever those are set, whatever was configured; otherwise they are the configured ones of
/// trusted-proxy access.
pub proof fn law_environment_outweighs_proxy_access(
    current: AccessModel,
    environment: EnvironmentModel,
    addresses: Seq<Option<IpAddress>>,
    parts: Option<PartsModel>,
    ips: Seq<IpAddress>,
    public_origin: Seq<char>,
)
    requires
        access::access_after(current, environment, addresses, parts) == Ok::<AccessModel, Seq<char>>(
            AccessModel::TrustedProxy { ips, public_origin },
        ),
    ensures
        environment.trusted_proxy_ips matches Some(value) ==> {
            let entries = access::proxy_entries(decode_utf8(value));
            &&& ips.len() > 0
            &&& forall|i: int|
                0 <= i < entries.len() ==> i < addresses.len() && (#[trigger] addresses[i]) is Some
                    && ips.contains(addresses[i]->0)
            &&& forall|k: int|
                0 <= k < ips.len() ==> is_address_of(
                    addresses,
                    entries.len() as int,
                    #[trigger] ips[k],
                )
        },
        environment.public_origin matches Some(value) ==> public_origin == decode_utf8(value),
        environment.trusted_proxy_ips is None ==> current is TrustedProxy && ips == current->ips,
        environment.public_origin is None ==> current is TrustedProxy && public_origin
            == current->TrustedProxy_public_origin,
        environment.token_file is None && environment.tls_certificate is None
            && environment.tls_private_key is None,
{
    lemma_mode_names();
    if let Some(value) = environment.trusted_proxy_ips {
        let entries = access::proxy_entries(decode_utf8(value));
        lemma_proxies_are_the_addresses(entries, addresses, entries.len() as int, ips);
    }
}

/// Local access takes no settings, and is no refuge for a configured file or proxy: where the daemon
/// comes to it, the environment sets nothing about access but the mode.
pub proof fn law_local_access_is_bare(
    current: AccessModel,
    environment: EnvironmentModel,
    addresses: Seq<Option<IpAddress>>,
    parts: Option<PartsModel>,
)
    requires
        access::access_after(current, environment, addresses, parts) == Ok::<AccessModel, Seq<char>>(
            AccessModel::Local,
        ),
    ensures
        environment.token_file is None,
        environment.public_origin is None,
        environment.tls_certificate is None,
        environment.tls_private_key is None,
        environment.trusted_proxy_ips is None,
        current is Local || environment.mode is Some,
{
    lemma_mode_names();
}

/// The environment alone makes token access, whatever was configured: where it names the mode, an
/// absolute token file, a faultless origin and, if any, both TLS files at absolute paths, it is
/// accepted.
pub proof fn law_environment_alone_makes_token_access(
    current: AccessModel,
    environment: EnvironmentModel,
    addresses: Seq<Option<IpAddress>>,
    parts: Option<PartsModel>,
)
    requires
        environment.mode matches Some(name) && valid_utf8(name) && !text::is_blank(decode_utf8(name))
            && decode_utf8(name) == "token"@,
        environment.token_file matches Some(file) && !config::is_blank_value(file)
            && path::is_absolute(file),
        environment.public_origin matches Some(value) && valid_utf8(value) && !text::is_blank(
            decode_utf8(value),
        ) && origin::origin_fault(decode_utf8(value), parts) is None,
        environment.tls_certificate matches Some(file) && !config::is_blank_value(file)
            && path::is_absolute(file),
        environment.tls_private_key matches Some(file) && !config::is_blank_value(file)
            && path::is_absolute(file),
        environment.trusted_proxy_ips is None,
    ensures
        access::access_after(current, environment, addresses, parts) == Ok::<AccessModel, Seq<char>>(
            AccessModel::Token {
                token_file: environment.token_file->0,
                public_origin: decode_utf8(environment.public_origin->0),
                tls: Some((environment.tls_certificate->0, environment.tls_private_key->0)),
            },
        ),
{
    lemma_mode_names();
}

} // verus!

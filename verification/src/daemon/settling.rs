//! What the daemon settles on: its limits, its places, its address and its origin, from the
//! configuration file and the environment.
use vstd::prelude::*;
use vstd::utf8::*;
use crate::bytes;
use crate::daemon::access;
use crate::daemon::config;
use crate::daemon::config::{AccessModel, ConfigurationModel, DaemonLimits};
use crate::daemon::origin;
use crate::daemon::origin::{IpAddress, PartsModel, SocketAddress};
use crate::daemon::resolve;
use crate::daemon::resolve::{
    ConfigurationRead,
    FileAccessConfiguration,
    FileConfiguration,
    PlaceEnvironment,
};
use crate::number;
use crate::path;

verus! {

/// Each limit is the number that its variable holds whenever that is set, else the one that the
/// file states, else 512 MiB for an upload and 20 GiB for the store; and a file is of version 1.
pub proof fn law_limits_are_the_set_ones(
    file: Option<FileConfiguration>,
    upload: Option<Seq<u8>>,
    finalized: Option<Seq<u8>>,
    limits: DaemonLimits,
)
    requires
        resolve::resolved_limits(file, upload, finalized) == Ok::<DaemonLimits, Seq<char>>(limits),
    ensures
        upload matches Some(value) ==> limits.max_upload_bytes == number::digits_value(
            decode_utf8(value),
        ),
        finalized matches Some(value) ==> limits.max_finalized_blob_bytes == number::digits_value(
            decode_utf8(value),
        ),
        file matches Some(found) ==> found.schema_version == 1,
        file matches Some(found) ==> (found.limits matches Some(stated) ==> {
            &&& upload is None ==> limits.max_upload_bytes == stated.max_upload_bytes
            &&& finalized is None ==> limits.max_finalized_blob_bytes
                == stated.max_finalized_blob_bytes
        }),
        file is None || file->0.limits is None ==> {
            &&& upload is None ==> limits.max_upload_bytes == 512 * 1024 * 1024
            &&& finalized is None ==> limits.max_finalized_blob_bytes == 20 * 1024 * 1024 * 1024
        },
        0 < limits.max_upload_bytes <= limits.max_finalized_blob_bytes,
{
}

/// Any two numbers of bytes, the first more than zero and no more than the second, can be set by
/// the environment, whatever the file states.
pub proof fn law_limits_can_be_set(
    current: DaemonLimits,
    upload: u64,
    finalized: u64,
)
    requires
        0 < upload <= finalized,
    ensures
        config::limits_after(
            current,
            Some(encode_utf8(number::decimal(upload as nat))),
            Some(encode_utf8(number::decimal(finalized as nat))),
        ) == Ok::<DaemonLimits, Seq<char>>(
            DaemonLimits { max_upload_bytes: upload, max_finalized_blob_bytes: finalized },
        ),
{
    lemma_number_reads_back("GLIM_MAX_UPLOAD_BYTES"@, upload);
    lemma_number_reads_back("GLIM_MAX_FINALIZED_BLOB_BYTES"@, finalized);
}

proof fn lemma_number_reads_back(name: Seq<char>, value: u64)
    requires
        0 < value,
    ensures
        config::environment_limit(name, Some(encode_utf8(number::decimal(value as nat)))) == Ok::<
            Option<nat>,
            Seq<char>,
        >(Some(value as nat)),
{
    number::law_decimal_reads_back(value as nat);
    encode_utf8_valid_utf8(number::decimal(value as nat));
    encode_utf8_decode_utf8(number::decimal(value as nat));
}

/// The address that is bound is the one that the chosen text gives, at a port that is not zero. The
/// text is the value of `GLIM_BIND` whenever that is set, else the one that the file states, else
/// loopback at port 3030.
pub proof fn law_the_chosen_address_is_bound(
    file: Option<FileConfiguration>,
    set_bind: Option<Seq<u8>>,
    address: Option<SocketAddress>,
    bind: SocketAddress,
)
    requires
        resolve::resolved_bind(file, set_bind, address) == Ok::<SocketAddress, Seq<char>>(bind),
    ensures
        address == Some(bind),
        bind.port > 0,
        set_bind matches Some(value) ==> resolve::bind_text(file, set_bind) == Ok::<
            Seq<char>,
            Seq<char>,
        >(decode_utf8(value)),
        set_bind is None ==> (file matches Some(found) ==> (found.bind matches Some(stated)
            ==> resolve::bind_text(file, set_bind) == Ok::<Seq<char>, Seq<char>>(stated@))),
        set_bind is None && (file is None || file->0.bind is None) ==> resolve::bind_text(
            file,
            set_bind,
        ) == Ok::<Seq<char>, Seq<char>>("127.0.0.1:3030"@),
{
}

/// The store and the configuration file stand below the user's own directories where nothing else
/// is said: in `glim` of the data directory, and at `glim/config.json` of the configuration
/// directory, which are those of XDG where they are usable and else those of the home directory. A
/// place that is said stands as it is said, and such a configuration file must be there.
pub proof fn law_places_follow_the_user(
    set_place: Option<Seq<u8>>,
    xdg_base: Option<Seq<u8>>,
    home: Option<Seq<u8>>,
)
    ensures
        ({
            let store = config::store_root(set_place, xdg_base, home);
            let file = config::configuration_file(set_place, xdg_base, home);
            &&& set_place matches Some(place) ==> {
                &&& store is Ok <==> path::is_absolute(place) && !config::is_blank_value(place)
                &&& file is Ok <==> path::is_absolute(place) && !config::is_blank_value(place)
                &&& store is Ok ==> store == Ok::<(Seq<u8>, bool), Seq<char>>((place, true))
                &&& file is Ok ==> file == Ok::<Option<(Seq<u8>, bool)>, Seq<char>>(
                    Some((place, true)),
                )
            }
            &&& set_place is None && is_usable(xdg_base) && xdg_base->0.last() != 0x2f ==> {
                &&& store == Ok::<(Seq<u8>, bool), Seq<char>>(
                    (xdg_base->0 + encode_utf8("/glim"@), false),
                )
                &&& file == Ok::<Option<(Seq<u8>, bool)>, Seq<char>>(
                    Some((xdg_base->0 + encode_utf8("/glim/config.json"@), false)),
                )
            }
            &&& set_place is None && !is_usable(xdg_base) && is_usable(home) && home->0.last() != 0x2f
                ==> {
                &&& store == Ok::<(Seq<u8>, bool), Seq<char>>(
                    (home->0 + encode_utf8("/.local/share/glim"@), false),
                )
                &&& file == Ok::<Option<(Seq<u8>, bool)>, Seq<char>>(
                    Some((home->0 + encode_utf8("/.config/glim/config.json"@), false)),
                )
            }
            &&& set_place is None && !is_usable(xdg_base) && !is_usable(home) ==> store is Err && file
                == Ok::<Option<(Seq<u8>, bool)>, Seq<char>>(None)
        }),
{
    lemma_slash("glim"@, "/glim"@);
    lemma_slash("glim/config.json"@, "/glim/config.json"@);
    lemma_slash(".local/share/glim"@, "/.local/share/glim"@);
    lemma_slash(".config/glim/config.json"@, "/.config/glim/config.json"@);
    reveal_strlit("glim");
    reveal_strlit("/glim");
    reveal_strlit("glim/config.json");
    reveal_strlit("/glim/config.json");
    reveal_strlit(".local/share/glim");
    reveal_strlit("/.local/share/glim");
    reveal_strlit(".config/glim/config.json");
    reveal_strlit("/.config/glim/config.json");
    assert("/glim"@ =~= seq!['/'] + "glim"@);
    assert("/glim/config.json"@ =~= seq!['/'] + "glim/config.json"@);
    assert("/.local/share/glim"@ =~= seq!['/'] + ".local/share/glim"@);
    assert("/.config/glim/config.json"@ =~= seq!['/'] + ".config/glim/config.json"@);
    lemma_appended(xdg_base->0, "glim"@, "/glim"@);
    lemma_appended(xdg_base->0, "glim/config.json"@, "/glim/config.json"@);
    lemma_appended(home->0, ".local/share/glim"@, "/.local/share/glim"@);
    lemma_appended(home->0, ".config/glim/config.json"@, "/.config/glim/config.json"@);
}

/// Whether a directory is said, is not blank and starts at the root.
pub open spec fn is_usable(base: Option<Seq<u8>>) -> bool {
    base matches Some(found) && !config::is_blank_value(found) && path::is_absolute(found)
}

proof fn lemma_slash(name: Seq<char>, whole: Seq<char>)
    ensures
        whole == seq!['/'] + name ==> encode_utf8(whole) == seq![0x2fu8] + encode_utf8(name),
{
    if whole == seq!['/'] + name {
        assert(is_ascii_chars(seq!['/']));
        is_ascii_chars_encode_utf8(seq!['/']);
        assert(encode_utf8(seq!['/']) =~= seq![0x2fu8]);
        assert(whole.drop_first() =~= name);
        assert(seq!['/'].drop_first() =~= Seq::<char>::empty());
        reveal_with_fuel(encode_utf8, 2);
        assert(encode_utf8(whole) =~= seq![0x2fu8] + encode_utf8(name));
    }
}

proof fn lemma_appended(base: Seq<u8>, name: Seq<char>, whole: Seq<char>)
    requires
        whole == seq!['/'] + name,
    ensures
        base.len() > 0 && base.last() != 0x2f ==> path::below(base, encode_utf8(name)) == base
            + encode_utf8(whole),
{
    lemma_slash(name, whole);
    assert(base.push(0x2f) + encode_utf8(name) =~= base + (seq![0x2fu8] + encode_utf8(name)));
}

/// A configuration file of at most 64 KiB is read as it is. One that need not be there may be
/// missing, and then states nothing; anything else that is wrong with it is an error.
pub proof fn law_configuration_files_are_read_whole(
    shown_path: Seq<char>,
    required: bool,
    read: ConfigurationRead,
)
    ensures
        ({
            let found = resolve::configuration_bytes(shown_path, required, read);
            &&& read matches ConfigurationRead::Bytes(content) ==> {
                &&& content@.len() <= 64 * 1024 ==> found == Ok::<Option<Seq<u8>>, Seq<char>>(
                    Some(content@),
                )
                &&& content@.len() > 64 * 1024 ==> found is Err
            }
            &&& read is Missing && !required ==> found == Ok::<Option<Seq<u8>>, Seq<char>>(None)
            &&& read is Missing && required ==> found is Err
            &&& read is Irregular || read is Failed ==> found is Err
        }),
{
}

/// What the file states of access is what it amounts to: nothing is local access; token access keeps
/// its file, its origin and both TLS files or none; trusted-proxy access keeps its origin.
pub proof fn law_stated_access_is_kept(
    file: Option<FileConfiguration>,
    addresses: Seq<Option<IpAddress>>,
    parts: Option<PartsModel>,
    found: AccessModel,
)
    requires
        resolve::file_access(file, addresses, parts) == Ok::<AccessModel, Seq<char>>(found),
    ensures
        file is None || file->0.access is None || file->0.access == Some(
            FileAccessConfiguration::Local,
        ) <==> found is Local,
        file matches Some(stated) ==> (stated.access matches Some(
            FileAccessConfiguration::Token {
                token_file,
                public_origin,
                tls_certificate,
                tls_private_key,
            },
        ) ==> {
            &&& found is Token
            &&& found->token_file == token_file@
            &&& path::is_absolute(token_file@)
            &&& found->Token_public_origin == public_origin@
            &&& tls_certificate is Some <==> found->tls is Some
            &&& tls_private_key is Some <==> found->tls is Some
            &&& tls_certificate matches Some(certificate) ==> (found->tls->0).0 == certificate@
                && path::is_absolute(certificate@)
            &&& tls_private_key matches Some(key) ==> (found->tls->0).1 == key@ && path::is_absolute(
                key@,
            )
        }),
        file matches Some(stated) ==> (stated.access matches Some(
            FileAccessConfiguration::TrustedProxy { trusted_proxy_ips, public_origin },
        ) ==> {
            &&& found is TrustedProxy
            &&& found->TrustedProxy_public_origin == public_origin@
            &&& Ok::<Seq<IpAddress>, Seq<char>>(found->ips) == access::trusted_proxies(
                crate::text::texts(trusted_proxy_ips@),
                addresses,
            )
        }),
{
}

/// A configuration holds what its parts amount to: the store's place, the bound address, the access
/// and the limits are each the ones that were resolved, and none for another.
pub proof fn law_configurations_hold_their_parts(
    file: Option<FileConfiguration>,
    environment: PlaceEnvironment,
    address: Option<SocketAddress>,
    addresses: Seq<Option<IpAddress>>,
    parts: Option<PartsModel>,
    base: ConfigurationModel,
)
    requires
        resolve::base_configuration(file, environment, address, addresses, parts) == Ok::<
            ConfigurationModel,
            Seq<char>,
        >(base),
    ensures
        address == Some(base.bind),
        environment.store_root matches Some(root) ==> base.store == (root@, true),
        environment.store_root is None ==> (file matches Some(stated) ==> (stated.store_root matches Some(
            root,
        ) ==> base.store == (root@, true))),
        environment.store_root is None && (file is None || file->0.store_root is None) ==> Ok::<
            (Seq<u8>, bool),
            Seq<char>,
        >(base.store) == config::store_root(
            None,
            bytes::optional(environment.xdg_data_home),
            bytes::optional(environment.home),
        ),
        Ok::<AccessModel, Seq<char>>(base.access) == resolve::file_access(file, addresses, parts),
        file matches Some(stated) ==> stated.schema_version == 1,
        file matches Some(stated) ==> (stated.limits matches Some(limits) ==> base.limits == limits),
        file is None || file->0.limits is None ==> base.limits.max_upload_bytes == 512 * 1024 * 1024
            && base.limits.max_finalized_blob_bytes == 20 * 1024 * 1024 * 1024,
{
}

/// An accepted public origin is `http://` or `https://` and an authority without user information,
/// with nothing before or after; and every such text whose authority is read back is accepted.
pub proof fn law_public_origins_are_bare(
    value: Seq<char>,
    scheme: Option<Seq<char>>,
    authority: Option<Seq<char>>,
    port: Option<u16>,
)
    ensures
        origin::origin_fault(value, Some(PartsModel { scheme, authority, port })) is None <==> {
            &&& authority is Some
            &&& !(authority->0).contains('@')
            &&& ({
                ||| scheme == Some("http"@) && value == "http://"@ + authority->0
                ||| scheme == Some("https"@) && value == "https://"@ + authority->0
            })
        },
        origin::origin_fault(value, None) is Some,
{
    reveal_strlit("http");
    reveal_strlit("https");
    reveal_strlit("://");
    reveal_strlit("http://");
    reveal_strlit("https://");
    reveal_strlit("");
    assert("http"@ + "://"@ =~= "http://"@);
    assert("https"@ + "://"@ =~= "https://"@);
    assert("http"@.len() == 4);
    assert("https"@.len() == 5);
    assert(""@.len() == 0);
    assert(scheme == Some("http"@) ==> "http"@ + "://"@ + authority->0 == "http://"@ + authority->0);
}

/// The addresses that only this machine reaches are those from `127.0.0.0` to `127.255.255.255`,
/// and `::1`.
pub proof fn law_loopback_addresses(first: u8, rest: u32, wide: u128)
    requires
        rest < 0x100_0000,
    ensures
        origin::is_loopback(IpAddress::V4 { bits: (first * 0x100_0000 + rest) as u32 }) <==> first == 127,
        origin::is_loopback(IpAddress::V6 { bits: wide }) <==> wide == 1,
{
}

/// Token access is offered at the port that its origin names, which is 443 for HTTPS and 80 for HTTP
/// where it names none; and beyond this machine it is offered over HTTPS with TLS files only.
/// Trusted-proxy access beyond this machine has an HTTPS origin, and local access has no part there.
pub proof fn law_offered_access_is_reachable(
    bind: SocketAddress,
    token_file: Seq<u8>,
    ips: Seq<IpAddress>,
    public_origin: Seq<char>,
    tls: Option<(Seq<u8>, Seq<u8>)>,
    parts: PartsModel,
)
    ensures
        access::access_bind_fault(bind, AccessModel::Local, Some(parts)) is None
            <==> origin::is_loopback(bind.ip),
        access::access_bind_fault(
            bind,
            AccessModel::Token { token_file, public_origin, tls },
            Some(parts),
        ) is None <==> {
            &&& parts.port matches Some(port) ==> port == bind.port
            &&& parts.port is None && parts.scheme == Some("https"@) ==> bind.port == 443
            &&& parts.port is None && parts.scheme != Some("https"@) ==> bind.port == 80
            &&& !origin::is_loopback(bind.ip) ==> tls is Some && parts.scheme == Some("https"@)
        },
        access::access_bind_fault(
            bind,
            AccessModel::TrustedProxy { ips, public_origin },
            Some(parts),
        ) is None <==> (origin::is_loopback(bind.ip) || parts.scheme == Some("https"@)),
{
    reveal_strlit("https");
    reveal_strlit("");
    assert("https"@.len() == 5);
    assert(""@.len() == 0);
}

} // verus!

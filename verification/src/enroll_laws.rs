//! Devices: who may come in, until when, and what each is given.

use crate::numeral::{decimal, decimal_reads_back, hexadecimal, read_number};
use crate::text::trimmed;
use crate::tls::{
    ca_facts, der_of, device_facts, device_named, enrolled, expiry, fingerprint, hex_text,
    hub_id_of, identifier, is_printable, issuance, key_der_of, listener_facts, nameable,
    new_device_id, port_setting, printable, server_facts, sha256, writable_name, writable_part,
    CertFacts, Device, Enrollment, ListenerError, ListenerFacts, PartFacts, TlsVersion, Usage,
};
use vstd::prelude::*;

verus! {

/// A fingerprint is that of an enrolled device if the device's record has it and the
/// device's time is not up; of several the first counts. Nobody else is enrolled.
pub proof fn first_valid_device_counts(devices: Seq<Device>, fp: Seq<char>, now: u64, i: int)
    requires
        0 <= i < devices.len(),
        devices[i].fp == fp,
        devices[i].expires > now,
        forall|j: int|
            0 <= j < i ==> (#[trigger] devices[j]).fp != fp || devices[j].expires <= now,
    ensures
        enrolled(devices, fp, now) == Some(devices[i]),
    decreases i,
{
    if i > 0 {
        let rest = devices.drop_first();
        assert forall|j: int| 0 <= j < i - 1 implies (#[trigger] rest[j]).fp != fp
            || rest[j].expires <= now by {
            assert(rest[j] == devices[j + 1]);
        }
        assert(devices[0].fp != fp || devices[0].expires <= now);
        first_valid_device_counts(rest, fp, now, i - 1);
    }
}

/// Of the devices the first with an id is found, and none if none has it.
pub proof fn first_device_with_an_id_is_found(devices: Seq<Device>, id: Seq<char>, i: int)
    ensures
        (0 <= i < devices.len() && devices[i].id == id && forall|j: int|
            0 <= j < i ==> (#[trigger] devices[j]).id != id) ==> device_named(devices, id) == Some(
            devices[i],
        ),
        (forall|j: int| 0 <= j < devices.len() ==> (#[trigger] devices[j]).id != id)
            ==> device_named(devices, id) is None,
    decreases devices.len(),
{
    if devices.len() > 0 {
        let rest = devices.drop_first();
        first_device_with_an_id_is_found(rest, id, i - 1);
        if forall|j: int| 0 <= j < devices.len() ==> (#[trigger] devices[j]).id != id {
            assert(devices[0].id != id);
            assert forall|j: int| 0 <= j < rest.len() implies (#[trigger] rest[j]).id != id by {
                assert(rest[j] == devices[j + 1]);
            }
        }
        if 0 < i < devices.len() && devices[i].id == id && forall|j: int|
            0 <= j < i ==> (#[trigger] devices[j]).id != id {
            assert(devices[0].id != id);
            assert forall|j: int| 0 <= j < i - 1 implies (#[trigger] rest[j]).id != id by {
                assert(rest[j] == devices[j + 1]);
            }
        }
    }
}

/// The network listener takes the port that the setting names, if it is one, and
/// otherwise 27420.
pub proof fn port_is_set_or_usual(setting: Seq<char>, n: u16)
    ensures
        port_setting(None) == 27420,
        n > 0 && setting == decimal(n as nat) ==> port_setting(Some(setting)) == n,
        read_number(setting, 65535) is None ==> port_setting(Some(setting)) == 27420,
        read_number(setting, 65535) == Some(0nat) ==> port_setting(Some(setting)) == 27420,
{
    decimal_reads_back(n as nat, 65535);
}

/// Bytes are written as two hexadecimal digits each, the higher one first, in their
/// order.
pub proof fn bytes_are_written_in_hexadecimal(bytes: Seq<u8>, b: u8)
    ensures
        hex_text(Seq::empty()) == Seq::<char>::empty(),
        hex_text(bytes.push(b)) == hex_text(bytes) + hexadecimal((b / 16) as nat) + hexadecimal(
            (b % 16) as nat,
        ),
{
    assert(bytes.push(b).drop_last() =~= bytes);
    assert(hex_text(bytes.push(b)) =~= hex_text(bytes) + hexadecimal((b / 16) as nat)
        + hexadecimal((b % 16) as nat));
}

/// The fingerprint of a certificate is the SHA-256 hash of its bytes in hexadecimal.
pub proof fn fingerprint_is_the_hash(pem: Seq<char>, der: Seq<u8>)
    ensures
        der_of(pem) == Some(der) ==> fingerprint(pem) == Some(hex_text(sha256(der))),
        der_of(pem) is None ==> fingerprint(pem) is None,
{
}

/// A hub keeps the id that it has, without white space round it, and gets a new one
/// only if it has none. New ids are made of the time and the process.
pub proof fn hub_keeps_its_id(stored: Seq<char>, now: u64, pid: u32, nanos: u32)
    ensures
        trimmed(stored).len() > 0 ==> hub_id_of(Some(stored), now, pid) == trimmed(stored),
        trimmed(stored).len() == 0 ==> hub_id_of(Some(stored), now, pid) == hub_id_of(
            None,
            now,
            pid,
        ),
        hub_id_of(None, now, pid) == "hub-"@ + hexadecimal(now as nat) + "-"@ + decimal(pid as nat),
        new_device_id(now, pid, nanos) == "dev-"@ + hexadecimal(now as nat) + "-"@ + decimal(
            pid as nat,
        ) + "-"@ + decimal(nanos as nat),
{
}

/// A device counts for as long as it was given, and never beyond the end of time.
pub proof fn device_counts_for_its_time(issued: u64, ttl: u64)
    ensures
        issued + ttl <= u64::MAX ==> expiry(issued, ttl) == issued + ttl,
        issued + ttl > u64::MAX ==> expiry(issued, ttl) == u64::MAX,
{
}

/// What a device is given says where the hub is, which protocol to speak, by which
/// fingerprint to know the listener, which authority to trust, the device's own
/// certificate, key and id, how long they count, and which hub it is for. The record
/// of the device has its id, its time, and the fingerprint of its certificate.
pub proof fn device_is_given_all_it_needs(
    device_cert: Seq<char>,
    device_key: Seq<char>,
    id: Seq<char>,
    issued: u64,
    ttl: u64,
    host: Seq<char>,
    port: u16,
    server_cert: Seq<char>,
    ca_cert: Seq<char>,
    hub_id: Seq<char>,
)
    ensures
        issuance(
            device_cert,
            device_key,
            id,
            issued,
            ttl,
            host,
            port,
            server_cert,
            ca_cert,
            hub_id,
        ) == match der_of(device_cert) {
            Some(der) => Some(
                (
                    Device {
                        id,
                        issued,
                        expires: expiry(issued, ttl),
                        fp: hex_text(sha256(der)),
                    },
                    match der_of(server_cert) {
                        Some(listener) => Some(
                            Enrollment {
                                host,
                                port,
                                alpn: "gtm-hub"@,
                                server_fp: hex_text(sha256(listener)),
                                ca_cert,
                                device_cert,
                                device_key,
                                device_id: id,
                                issued,
                                expires: expiry(issued, ttl),
                                hub_id,
                            },
                        ),
                        None => None,
                    },
                ),
            ),
            None => None,
        },
{
}

/// The authority's certificate is for signing certificates, lists of revoked ones and
/// messages, and lets no other authority stand under it. The listener's is for the
/// hub's name and the host, a device's for the device; both are for signing messages
/// only, and are no authority's.
pub proof fn certificates_say_what_they_are_for(host: Seq<char>, id: Seq<char>)
    ensures
        ca_facts() == (CertFacts {
            names: Seq::empty(),
            common_name: "GTM Hub CA"@,
            authority: Some(0),
            usages: seq![Usage::SignCertificates, Usage::SignRevocations, Usage::SignMessages],
        }),
        host.len() > 0 && host != "gtm-hub"@ ==> server_facts(host) == (CertFacts {
            names: seq!["gtm-hub"@, host],
            common_name: "gtm-hub"@,
            authority: None,
            usages: seq![Usage::SignMessages],
        }),
        host.len() == 0 || host == "gtm-hub"@ ==> server_facts(host) == (CertFacts {
            names: seq!["gtm-hub"@],
            common_name: "gtm-hub"@,
            authority: None,
            usages: seq![Usage::SignMessages],
        }),
        device_facts(id) == (CertFacts {
            names: seq![id],
            common_name: id,
            authority: None,
            usages: seq![Usage::SignMessages],
        }),
{
}

/// The listener speaks TLS 1.3 alone and takes only clients whose certificates the
/// hub's authority has signed; it shows its own certificate, has the key for it, and
/// speaks the hub's protocol. What cannot be read is named, the authority's
/// certificate first.
pub proof fn listener_speaks_tls(
    ca_cert: Seq<char>,
    server_cert: Seq<char>,
    server_key: Seq<char>,
)
    ensures
        listener_facts(ca_cert, server_cert, server_key) == if der_of(ca_cert) is None {
            Err::<ListenerFacts, ListenerError>(ListenerError::Authority)
        } else if der_of(server_cert) is None {
            Err::<ListenerFacts, ListenerError>(ListenerError::Certificate)
        } else if key_der_of(server_key) is None {
            Err::<ListenerFacts, ListenerError>(ListenerError::Key)
        } else {
            Ok::<ListenerFacts, ListenerError>(
                ListenerFacts {
                    versions: seq![TlsVersion::Tls13],
                    client_root: der_of(ca_cert)->0,
                    certificate: der_of(server_cert)->0,
                    key_form: (key_der_of(server_key)->0).0,
                    key: (key_der_of(server_key)->0).1,
                    alpn: "gtm-hub"@,
                },
            )
        },
        ListenerError::Authority.said() == "ca pem"@,
        ListenerError::Certificate.said() == "server pem"@,
        ListenerError::Key.said() == "server key pem"@,
{
}

/// Whether an authority's name can be written into the certificates that it signs:
/// each part is of a kind with at least two numbers, the first at most two and the
/// second less than forty under the first two, and a printable text has only letters,
/// digits, blanks and some signs.
pub proof fn names_can_be_written(arcs: Seq<u64>, text: Seq<char>, parts: Seq<PartFacts>, c: char)
    ensures
        identifier(arcs) <==> arcs.len() >= 2 && (arcs[0] == 2 && arcs[1] < u64::MAX - 80 || (
        arcs[0] == 0 || arcs[0] == 1) && arcs[1] < 40),
        printable(text) <==> forall|i: int| 0 <= i < text.len() ==> is_printable(#[trigger] text[i]),
        'a' <= c <= 'z' || 'A' <= c <= 'Z' || '0' <= c <= '9' || c == ' ' ==> is_printable(c),
        c == '?' || c == '*' || c == '@' || c == '_' || c as u32 >= 128 ==> !is_printable(c),
        writable_name(parts) <==> forall|i: int|
            0 <= i < parts.len() ==> ((#[trigger] parts[i]).kind is Some ==> identifier(
                parts[i].kind->0,
            )) && (parts[i].printable is Some ==> printable(parts[i].printable->0)),
{
    if forall|i: int|
        0 <= i < parts.len() ==> ((#[trigger] parts[i]).kind is Some ==> identifier(
            parts[i].kind->0,
        )) && (parts[i].printable is Some ==> printable(parts[i].printable->0)) {
        assert forall|i: int| 0 <= i < parts.len() implies writable_part(#[trigger] parts[i]) by {
        }
    }
    if writable_name(parts) {
        assert forall|i: int| 0 <= i < parts.len() implies ((#[trigger] parts[i]).kind is Some
            ==> identifier(parts[i].kind->0)) && (parts[i].printable is Some ==> printable(
            parts[i].printable->0,
        )) by {
            assert(writable_part(parts[i]));
        }
    }
}

/// A certificate can be for names in ASCII, and for no others.
pub proof fn certificates_are_for_names_in_ascii(facts: CertFacts)
    ensures
        nameable(facts) <==> forall|i: int|
            0 <= i < facts.names.len() ==> vstd::utf8::is_ascii_chars(#[trigger] facts.names[i]),
{
}

} // verus!

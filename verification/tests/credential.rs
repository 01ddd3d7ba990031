use maglev::http::{Body, Method};
use maglev::json::{append, array, object, put, text, Json};
use maglev::provider::credential::{
    credential_file_name, credentials_json, find_credentials, load_google_application_credentials, print_build_credential,
    prompt_client_email, Builder, Building, Task,
};
use maglev::provider::gcp::GcpCredentials;
use maglev::provider::jwt::{
    certificate_fingerprint, certificate_info, certificate_validity, claims, create_jwt, create_jwt_at,
    generate_rsa_private_key_pem, hex_text, public_key_info, public_key_info_at, seal, KEY_HEADER,
};
use maglev::provider::GcpSetup;
use maglev::session::{Event, Note, OUT_OF_STEP};
use maglev::structs::CommonConfig;

type Log = Vec<Note<String>>;

/// A key for these tests only, in DER form and Base64.
const KEY: [&str; 26] = [
    "MIIEvgIBADANBgkqhkiG9w0BAQEFAASCBKgwggSkAgEAAoIBAQD5bQIr+9vuSdIr",
    "1kDcUavTRcr7qRVzWK3UXQSrZN2aGGLGw4G/m8wNageRPHD81BE6hoaKYYleSmK9",
    "SXUDCi9BqJICvnb7TPNZnyypFjYoHo45FzXbNJMjcJIeGKzz/V8JprX6cwa6Foj+",
    "ViZYCxmLfkEDJ4JAbKOQ3UPK0DktWS2itBQl+nybvzpTy/TLyPZ63RL42RDvL3Oc",
    "A06i6k8fgYxUaZ0XStvEuK3x3aGjgIdgIw6pwxdlXkDigSrLsu5s06gBxvw5AHxo",
    "oYis7Fmo32YCe/jE5Ku9U2Dy/4ELBCYZ5yjwq29OtS22W0hT1/pYmpvxBGGyt6zn",
    "WgLOOdd7AgMBAAECggEAWYMo7d7/sTcV8Xx9H3RB7VrVO1aVZ6VSEO3m8JmMu7H3",
    "tOxR4pFHfCLqn1EpHVr/6diAbSYO1eNtJxA3KYWcqvwTll+DNLGLfcTVksLxYZmB",
    "ofR18/qcuXG7RojFfPSXiE+nbD+ekOboeBozvZISM1D2hOrHYFZ8ps75ds4eTurG",
    "Sc197xIdkvGlUvGnfLBvIa+dqV26Jhue2ZKoLyLwG8Q5XGNqN48zqeJd/vFnqQh/",
    "c6ARnva8kWqduemWXoc96EE+tAmFuzg+rJZM2GhEfNdGknrIQ8hUwJimX4cC+yz/",
    "mIeideqmLFfyoACfxY416r63UlN8zRBxF76h4Bj1rQKBgQD948AF8dzV/TAiH5TI",
    "P7QCFCnAr29J+Vmzw/SxJeVSVglo8F5KWPqL8XKdrRHFu7+Q4MYRIMkjRG8NgUmX",
    "9yGt5IE2mBVaNhRljzqYjTclODmHU1lZwZmpfRiM1gt59QLYYDIJLdVTQGfo2L7U",
    "c7YhLPWca60faPLzaDU/47hh1wKBgQD7f8KEZKZPiV6mWEP4Nz+Nr/6cnMNbburn",
    "bz5wcz/OGcyiRtDtIA1/81be4y83ws9MTKKqVTuMmou8Xg08IiP/rqO6xDaMCy8S",
    "+0k9eRBIYoW2WTgnVKjgh/+Vh74/Mab0AkiOTescRKh7b6LSlJDxMBQbdKgoQG1F",
    "S9YvK+9K/QKBgQCUqRS45mPukK/sax2NG2/lf7Tq9E5vvCeAEQ9n4s6iJWqhHY24",
    "bt1Vr+zy0nIDm+mRhWu0f8QGeH2mJLvY1YXM8m2OcAKgreXHidQ/mwBdNMzKpk09",
    "NxUonu0PGg3iPUqLM9hYc5PjiWTOfItQjuhoCJFQI+Rc7fDEAZKcdFR0RQKBgQDY",
    "+wr5alTKPjw4y+IoXpIoTfUfbWhmlDV6YtG99tDPohaY0vwh+QtsnqcOOXddZmeu",
    "7ldRGaP81MFGTOaiQNpKF4QO+IYPIP8GI2K29KIFsWqnPiZiWHoy7WKmwaxznQTr",
    "dKTgkX0MsHejt1cE00SRsedHIMiLoboklR8/J2qWiQKBgFmOKtNIbpf5kq0Jy6W/",
    "5M8El3BO2LCINmWTLcOEfKsDQbYC22aIDq9ZGileb4/IXOKM7OsLTyRjv6V0iys2",
    "xgieCkUQ4phQ2uzJvvIVJUISshhAeY822jb4cTIO4EHp70rG6zYfxfZp6zXwd3Yp",
    "p2K7gAwuHHrzPJtX7ZKikQe6",
];

/// A key like the other one, but with the primes 3 and one of 1022 bits.
const LOPSIDED_KEY: [&str; 12] = [
    "MIICOAIBADANBgkqhkiG9w0BAQEFAASCAiIwggIeAgEAAoGBAJ44bHKnfMsnaBRP",
    "jCfEo1fot2x6YXXDYoqHpUk1HXHqVgMwPH5+0ZtY4+LBZsEE4oboueX1Jbl24rxc",
    "Avoc3CqgqKbJd0PA9/JGbVw5xXKnrQo87WHSl/V5RiHzDyvuM4T85k5TS7zN5Xxg",
    "LhE8WaeZ97RrjaI3gHV25LriEIL5AgMBAAECgYAiDxar7l6lw3DbK8M0QwG/3b+x",
    "C/3I15YcfgCtlqUlAth1zT9od4JFhPK2uwKUkFRMeEf0NuZiWzOJxUDQIxWd3ixl",
    "OD8tMu/s6Q4yPoQWH1Qs57ADUSMXBikmYRJ7VsZ5B+Zye+nKKy8NrA1JS+AnfQmz",
    "0+c5lpBXjjrEo/9WlwIBAwKBgDS9eXuNKZkNIrFv2WKW4R1Nknl+IHyWdi4tNxhn",
    "CdCjcgEQFCoqRd5y9qDrIkBW9iz4PfdRtz3SS5Qeq6i0SWOK4uJDJ8FAUqYXeclo",
    "lyY35Fi++ctGMqcobLX7r7lPZoGpohobw+mZ9yl1ZLBpczfd/Twj2eC9KtHSTD5L",
    "WtZTAgEBAoGAIg8Wq+5epcNw2yvDNEMBv92/sQv9yNeWHH4ArZalJQLYdc0/aHeC",
    "RYTytrsClJBUTHhH9DbmYlszicVA0CMVnd4sZTg/LTLv7OkOMj6EFh9ULOewA1Ej",
    "FwYpJmESe1bGeQfmcnvpyisvDawNSUvgJ30Js9PnOZaQV446xKP/VpcCAQE=",
];

fn pem_of(lines: &[&str]) -> String {
    format!("-----BEGIN {0} KEY-----\n{1}\n-----END {0} KEY-----\n", "PRIVATE", lines.join("\n"))
}

fn pem() -> String {
    pem_of(&KEY)
}

fn say(s: &str) -> Note<String> {
    Note::Say(s.to_string())
}

fn output(s: &str) -> Event<String> {
    Event::Output(s.to_string())
}

fn failed(s: &str) -> Event<String> {
    Event::Failed(s.to_string())
}

fn wait(b: Building<String>) -> (Builder<String>, Task<String>) {
    match b {
        Building::Wait(m, t) => (m, t),
        Building::Done => panic!("done"),
        Building::Failed(e) => panic!("failed: {e}"),
    }
}

fn failure(b: Building<String>) -> String {
    match b {
        Building::Failed(e) => e,
        _ => panic!("did not fail"),
    }
}

// ── tokens ─────────────────────────────────────────────────────────────────

const EMAIL: &str = "sa@p.iam.gserviceaccount.com";
const SCOPE: &str = "https://www.googleapis.com/auth/compute";

#[test]
fn claims_expire_after_an_hour() {
    assert_eq!(
        claims("a@b", "s", 1700000000),
        "{\"iss\":\"a@b\",\"scope\":\"s\",\"aud\":\"https://oauth2.googleapis.com/token\",\
         \"exp\":1700003600,\"iat\":1700000000}"
    );
}

#[test]
fn token_is_signed_with_the_private_key() {
    let expected = [
        "eyJhbGciOiJSUzI1NiIsInR5cCI6IkpXVCJ9",
        "eyJpc3MiOiJzYUBwLmlhbS5nc2VydmljZWFjY291bnQuY29tIiwic2NvcGUiOiJodHRwczovL3d3dy5nb29nbGVhcGlzLmNvbS9hdXRoL2NvbXB1dGUiLCJhdWQiOiJodHRwczovL29hdXRoMi5nb29nbGVhcGlzLmNvbS90b2tlbiIsImV4cCI6MTcwMDAwMzYwMCwiaWF0IjoxNzAwMDAwMDAwfQ",
        "AVmXuzU1v61GRciPLcl27EhlsrXhu0jsd-Hme28lMhP6p1dpMnip02-Y-uSmgApYkkdjwE7dP6NsHSgo0VKfNIpc2Cjr9Edj0bafrwD-BFwG0TNyu8bYk16I4_-bpOLg31rNcnC5IElDkPESL2iduCCWKFVCSXUN-XfD6mUaql8aTPEAAglYuFVKWeH1XWTkFclFv5xSAuX5Yg4lW_9-KaJJpoCSEPD1Iwp9hFlWzxyq95y_nXYlMXpolAW9DPKe9mpND6N8j2BNqwf9M9OprF8_paSCy8XRK80xq0hNaZH-TnG2ZSCQal75DWXCIZ8MrWrKlAPE7nlLKHKZRmPyLw",
    ];
    let jwt = create_jwt_at(&pem(), EMAIL, SCOPE, 1700000000).unwrap();
    assert_eq!(jwt.split('.').collect::<Vec<&str>>(), expected);
}

#[test]
fn token_of_now_has_the_same_header() {
    let jwt = create_jwt(&pem(), EMAIL, SCOPE).unwrap();
    let parts: Vec<&str> = jwt.split('.').collect();
    assert_eq!(parts.len(), 3);
    assert_eq!(parts[0], "eyJhbGciOiJSUzI1NiIsInR5cCI6IkpXVCJ9");
    assert_eq!(parts[2].len(), 342);
}

#[test]
fn token_is_asked_for_with_a_signed_token() {
    let setup = GcpSetup {
        common: CommonConfig { groups: vec![], specs: vec![], rules: vec![], provisioner: None, disks: None },
        credentials: GcpCredentials {
            client_email: EMAIL.to_string(),
            private_key_path: "k".to_string(),
            project_id: "p".to_string(),
            zone: "z".to_string(),
        },
    };
    let mut log = Log::new();
    let request = setup.token_request(&pem(), &mut log).unwrap();
    assert_eq!(request.url, "https://oauth2.googleapis.com/token");
    assert_eq!((request.method, request.bearer), (Method::Post, None));
    let Body::Form(fields) = request.body else { panic!("no form") };
    assert_eq!(fields[0].1, "urn:ietf:params:oauth:grant-type:jwt-bearer");
    assert!(fields[1].1.starts_with("eyJhbGciOiJSUzI1NiIsInR5cCI6IkpXVCJ9."));
    assert_eq!(
        log,
        vec![say("  Signing JWT with RSA-SHA256 …"), say("  Exchanging JWT for OAuth2 access token …")]
    );
}

#[test]
fn no_token_without_a_key() {
    assert!(create_jwt_at("nonsense", EMAIL, SCOPE, 0).is_err());
    assert!(create_jwt("nonsense", EMAIL, SCOPE).is_err());
}

#[test]
fn signatures_are_sealed_in_base64() {
    assert_eq!(seal("a.b", &vec![0, 1, 2, 3, 4]), "a.b.AAECAwQ");
    assert_eq!(seal("a.b", &vec![0xff, 0xfe, 0xfd]), "a.b.__79");
    assert_eq!(seal("a.b", &vec![0xfb]), "a.b.-w");
    assert_eq!(seal("a.b", &vec![]), "a.b.");
}

// ── certificates ───────────────────────────────────────────────────────────

#[test]
fn bytes_are_shown_in_hexadecimal() {
    assert_eq!(hex_text(&vec![0x00, 0x9a, 0xff]), "00:9a:ff");
    assert_eq!(hex_text(&vec![]), "");
}

#[test]
fn fingerprint_is_a_sha256_hash() {
    assert_eq!(
        certificate_fingerprint(&b"abc".to_vec()),
        "ba:78:16:bf:8f:01:cf:ea:41:41:40:de:5d:ae:22:23:b0:03:61:a3:96:17:7a:9c:b4:10:ff:61:f2:00:15:ad"
    );
}

#[test]
fn certificate_is_valid_for_ten_years() {
    assert_eq!(certificate_validity(1700000000), (1699999700, 2015360000));
}

#[test]
fn certificate_is_told_by_text_and_fingerprint() {
    let (pem, fingerprint) = certificate_info(Ok(("PEM".to_string(), b"abc".to_vec()))).unwrap();
    assert_eq!(pem, "PEM");
    assert!(fingerprint.starts_with("ba:78:16:bf:"));
    assert_eq!(certificate_info(Err("bad key".to_string())), Err("bad key".to_string()));
}

#[test]
fn certificate_is_made_for_the_key() {
    let (cert, fingerprint) = public_key_info(&pem(), EMAIL).unwrap();
    assert!(cert.starts_with("-----BEGIN CERTIFICATE-----"));
    assert!(cert.trim_end().ends_with("-----END CERTIFICATE-----"));
    assert_eq!(fingerprint.len(), 32 * 3 - 1);
    assert!(public_key_info("nonsense", EMAIL).is_err());
}

#[test]
fn new_key_can_sign() {
    let mut log = Log::new();
    let key = generate_rsa_private_key_pem(&mut log).unwrap();
    assert_eq!(log, vec![say("  Generating RSA-2048 private key …")]);
    assert!(key.starts_with(KEY_HEADER));
    assert!(create_jwt_at(&key, EMAIL, SCOPE, 0).is_ok());
}

#[test]
fn key_with_unequal_primes_signs_in_time() {
    assert!(create_jwt_at(&pem_of(&LOPSIDED_KEY), EMAIL, SCOPE, 0).is_ok());
}

// ── credentials in a file ──────────────────────────────────────────────────

#[test]
fn credentials_are_found_in_json() {
    assert_eq!(
        load_google_application_credentials("f", "{\"private_key\": \"K\", \"client_email\": \"a@b\", \"x\": [1, {}]}"),
        Ok(("K".to_string(), "a@b".to_string()))
    );
    let tree = put(put(object(), "private_key", text("K")), "client_email", text("a@b"));
    assert_eq!(find_credentials(&tree), Ok(("K".to_string(), "a@b".to_string())));
}

#[test]
fn written_credentials_are_read_back() {
    let json = credentials_json(&pem(), "a@b \"c\"");
    assert_eq!(
        load_google_application_credentials("f", &json),
        Ok((pem(), "a@b \"c\"".to_string()))
    );
}

#[test]
fn incomplete_credentials_are_refused() {
    let missing_key = Err("Missing 'private_key' in credentials file".to_string());
    let missing_email = Err("Missing 'client_email' in credentials file".to_string());
    assert_eq!(find_credentials(&object()), missing_key);
    assert_eq!(find_credentials(&append(array(), Json::Null)), missing_key);
    assert_eq!(find_credentials(&put(object(), "private_key", Json::Bool(true))), missing_key);
    assert_eq!(find_credentials(&put(object(), "private_key", text("K"))), missing_email);
    assert_eq!(load_google_application_credentials("f", "{\"private_key\":\"K\",\"client_email\":7}"), missing_email);
    let e = load_google_application_credentials("dir/f", "{").unwrap_err();
    assert!(e.starts_with("Cannot parse JSON from 'dir/f': EOF while parsing"), "{e}");
}

#[test]
fn credentials_file_is_named_after_the_account() {
    assert_eq!(credential_file_name("my-sa@p.iam"), "maglev-credentials-my-sa.json");
    assert_eq!(credential_file_name("plain"), "maglev-credentials-plain.json");
}

#[test]
fn typed_email_must_not_be_empty() {
    assert_eq!(prompt_client_email(" a@b \n"), Ok("a@b".to_string()));
    assert_eq!(prompt_client_email(" \n"), Err("Client email cannot be empty.".to_string()));
}

// ── the builder ────────────────────────────────────────────────────────────

#[test]
fn credentials_file_comes_first() {
    let mut log = Log::new();
    let (m, t) = wait(print_build_credential(
        Some("sa.json".to_string()),
        Some("key.pem".to_string()),
        None,
        &mut log,
    ));
    assert_eq!(t, Task::ReadFile("sa.json".to_string()));
    let (m, t) = wait(m.step(output("{\"private_key\":\"K\",\"client_email\":\"a@b\"}"), &mut log));
    assert_eq!(t, Task::Certify);
    assert_eq!((m.private_key.as_str(), m.client_email.as_str()), ("K", "a@b"));
    let (m, t) = wait(m.step(output("CERT"), &mut log));
    assert_eq!(t, Task::Confirm("\nPrint the JSON file?".to_string()));
    let (m, t) = wait(m.step(Event::Answer(true), &mut log));
    assert_eq!(t, Task::Confirm("\nSave credentials to file?".to_string()));
    let (m, t) = wait(m.step(Event::Answer(true), &mut log));
    assert_eq!(t, Task::WriteFile("maglev-credentials-a.json".to_string(), credentials_json("K", "a@b")));
    assert!(matches!(m.step(Event::Finished, &mut log), Building::Done));
    assert_eq!(
        log,
        vec![
            say("=== Maglev Credential Builder ===\n"),
            say("GOOGLE_APPLICATION_CREDENTIALS = sa.json"),
            say("  Using credentials from GOOGLE_APPLICATION_CREDENTIALS.\n"),
            say("\n── Public certificate (RSA_X509_PEM) ──────────────────────────────────\n"),
            say("CERT"),
            say("Upload steps:"),
            say("  • IAM & Admin → Service Accounts → a@b → Keys"),
            say("    → Add Key → Upload public key, and paste the certificate above."),
            say("  • Or via CLI:"),
            say("      gcloud iam service-accounts keys upload cert.pem \\"),
            say("        --iam-account=a@b"),
            say("\n── Credentials ─────────────────────────────────────────────────────────\n"),
            say("{\n  \"type\": \"service_account\",\n  \"private_key\": \"K\",\n  \"client_email\": \"a@b\"\n}"),
            say("✓ Credentials saved to: maglev-credentials-a.json"),
            say("⚠ Keep this file secure!"),
        ]
    );
}

#[test]
fn unreadable_credentials_file_is_an_error() {
    let mut log = Log::new();
    let begin = |log: &mut Log| wait(print_build_credential(Some("sa.json".to_string()), None, None, log)).0;
    assert_eq!(failure(begin(&mut log).step(failed("denied"), &mut log)), "Cannot read 'sa.json': denied");
    assert_eq!(
        failure(begin(&mut log).step(output("{}"), &mut log)),
        "Missing 'private_key' in credentials file"
    );
    assert_eq!(failure(begin(&mut log).step(Event::Finished, &mut log)), OUT_OF_STEP);
}

#[test]
fn key_file_is_read() {
    let mut log = Log::new();
    let (m, t) = wait(print_build_credential(
        None,
        Some("key.pem".to_string()),
        Some("a@b".to_string()),
        &mut log,
    ));
    assert_eq!(t, Task::Exists("key.pem".to_string()));
    let (m, t) = wait(m.step(Event::Answer(true), &mut log));
    assert_eq!(t, Task::ReadFile("key.pem".to_string()));
    let (m, t) = wait(m.step(output("K"), &mut log));
    assert_eq!(t, Task::Certify);
    let (m, _) = wait(m.step(output("CERT"), &mut log));
    let (m, t) = wait(m.step(Event::Answer(false), &mut log));
    assert_eq!(t, Task::Confirm("\nSave credentials to file?".to_string()));
    assert!(matches!(m.step(Event::Answer(false), &mut log), Building::Done));
    assert_eq!(
        log[1..4],
        [
            say("  GOOGLE_APPLICATION_CREDENTIALS not set — falling through.\n"),
            say("MAGLEV_PRIVATE_KEY = key.pem"),
            say("  Key file found — reading …"),
        ]
    );
}

#[test]
fn missing_key_is_made_with_approval() {
    let mut log = Log::new();
    let (m, _) = wait(print_build_credential(None, Some("d/key.pem".to_string()), None, &mut log));
    let (m, t) = wait(m.step(Event::Answer(false), &mut log));
    assert_eq!(t, Task::Confirm("  Generate and save a new RSA-2048 private key?".to_string()));
    let (m, t) = wait(m.step(Event::Answer(true), &mut log));
    assert_eq!(t, Task::NewKey);
    let (m, t) = wait(m.step(output("K"), &mut log));
    assert_eq!(t, Task::CreateParents("d/key.pem".to_string()));
    let (m, t) = wait(m.step(Event::Finished, &mut log));
    assert_eq!(t, Task::WriteFile("d/key.pem".to_string(), "K".to_string()));
    let (m, t) = wait(m.step(Event::Finished, &mut log));
    assert_eq!(t, Task::Prompt("  Enter client email: ".to_string()));
    let (m, t) = wait(m.step(output("a@b\n"), &mut log));
    assert_eq!(t, Task::Certify);
    assert_eq!((m.private_key.as_str(), m.client_email.as_str()), ("K", "a@b"));
    assert_eq!(
        log[3..],
        [
            say("  Key file does not exist at: d/key.pem"),
            say("  Private key saved to: d/key.pem"),
            say("  MAGLEV_CLIENT_EMAIL not set."),
        ]
    );
}

#[test]
fn keys_and_certificates_are_made_on_the_way() {
    let mut log = Log::new();
    let (m, _) = wait(print_build_credential(
        None,
        Some("key.pem".to_string()),
        Some(EMAIL.to_string()),
        &mut log,
    ));
    let (m, _) = wait(m.advance(Event::Answer(true), &mut log));
    let (m, t) = wait(m.advance(output(&pem()), &mut log));
    assert_eq!(t, Task::Confirm("\nPrint the JSON file?".to_string()));
    assert_eq!(m.private_key, pem());
    assert!(log.iter().any(|n| matches!(n, Note::Say(s) if s.starts_with("-----BEGIN CERTIFICATE-----"))));

    let (m, _) = wait(print_build_credential(None, Some("key.pem".to_string()), None, &mut log));
    let (m, _) = wait(m.advance(Event::Answer(true), &mut log));
    let (m, _) = wait(m.advance(output("nonsense"), &mut log));
    assert!(matches!(m.advance(output("a@b"), &mut log), Building::Failed(_)));
}

#[test]
fn missing_key_is_made_on_the_way() {
    let mut log = Log::new();
    let (m, _) = wait(print_build_credential(None, Some("key.pem".to_string()), None, &mut log));
    let (m, _) = wait(m.advance(Event::Answer(false), &mut log));
    let (m, t) = wait(m.advance(Event::Answer(true), &mut log));
    assert_eq!(t, Task::CreateParents("key.pem".to_string()));
    assert!(log.contains(&say("  Generating RSA-2048 private key …")));
    let (_, t) = wait(m.advance(Event::Finished, &mut log));
    let Task::WriteFile(path, key) = t else { panic!("no key is written") };
    assert_eq!(path, "key.pem");
    assert!(create_jwt_at(&key, EMAIL, SCOPE, 0).is_ok());
}

#[test]
fn declined_key_ends_the_program() {
    let mut log = Log::new();
    let (m, _) = wait(print_build_credential(None, Some("key.pem".to_string()), None, &mut log));
    let (m, _) = wait(m.step(Event::Answer(false), &mut log));
    let (_, t) = wait(m.step(Event::Answer(false), &mut log));
    assert_eq!(t, Task::Quit);
    assert_eq!(log.last(), Some(&Note::Warn("  Aborted.".to_string())));
}

#[test]
fn builder_failures_are_told() {
    let mut log = Log::new();
    assert_eq!(
        failure(print_build_credential(None, None, None, &mut log)),
        "MAGLEV_PRIVATE_KEY environment variable is not set"
    );
    let begin = |log: &mut Log| wait(print_build_credential(None, Some("k".to_string()), None, log)).0;
    let (m, _) = wait(begin(&mut log).step(Event::Answer(true), &mut log));
    assert_eq!(failure(m.step(failed("denied"), &mut log)), "Cannot read 'k': denied");
    let generating = |log: &mut Log| {
        let (m, _) = wait(begin(log).step(Event::Answer(false), log));
        wait(m.step(Event::Answer(true), log)).0
    };
    assert_eq!(failure(generating(&mut log).step(failed("no entropy"), &mut log)), "no entropy");
    let (m, _) = wait(generating(&mut log).step(output("K"), &mut log));
    assert_eq!(failure(m.step(failed("denied"), &mut log)), "Cannot create parent directories: denied");
    let (m, _) = wait(generating(&mut log).step(output("K"), &mut log));
    let (m, _) = wait(m.step(Event::Finished, &mut log));
    assert_eq!(failure(m.step(failed("full"), &mut log)), "Cannot write private key to 'k': full");
    let asking = |log: &mut Log| {
        let (m, _) = wait(begin(log).step(Event::Answer(true), log));
        wait(m.step(output("K"), log)).0
    };
    assert_eq!(failure(asking(&mut log).step(output(" "), &mut log)), "Client email cannot be empty.");
    let certifying = |log: &mut Log| wait(asking(log).step(output("a@b"), log)).0;
    assert_eq!(failure(certifying(&mut log).step(failed("bad key"), &mut log)), "bad key");
    let (m, _) = wait(certifying(&mut log).step(output("CERT"), &mut log));
    let (m, _) = wait(m.step(Event::Answer(false), &mut log));
    let (m, _) = wait(m.step(Event::Answer(true), &mut log));
    assert_eq!(failure(m.step(failed("full"), &mut log)), "Cannot write credentials: full");
}

#[test]
fn certificates_are_made_within_four_digit_years() {
    const FIRST: i64 = -62_167_219_200 + 300;
    const LAST: i64 = 253_402_300_799 - 315_360_000;
    for now in [0, FIRST, LAST] {
        assert!(public_key_info_at(&pem(), EMAIL, now).is_ok(), "{now}");
    }
    for now in [FIRST - 1, LAST + 1] {
        assert_eq!(public_key_info_at(&pem(), EMAIL, now), Err("the clock is out of range".to_string()));
    }
}

#[test]
fn builder_certifies_at_the_given_time() {
    let at = |now: i64| {
        let mut log = Log::new();
        let (m, _) = wait(print_build_credential(None, Some("k.pem".to_string()), Some(EMAIL.to_string()), &mut log));
        let (m, _) = wait(m.step(Event::Answer(true), &mut log));
        m.advance_at(Event::Output(pem()), now, &mut log)
    };
    let (_, task) = wait(at(0));
    assert_eq!(task, Task::Confirm("\nPrint the JSON file?".to_string()));
    assert_eq!(failure(at(300_000_000_000)), "the clock is out of range");
}

use vaultenv::cloud_metadata::{
    azure_jwt_request, azure_vm_metadata_request, fetch_ec2, gce_jwt_request, get_azure_jwt,
    get_azure_vm_metadata, get_ec2_metadata, get_gce_jwt, AzureVmMetadata, Ec2SignatureType,
    Ec2Step,
};
use vaultenv::http::{HttpRequest, Method, Reply, Status};

fn answer(status: u16, body: Option<&str>) -> Reply {
    Reply::Answer {
        status: Status::new(status).unwrap(),
        body: body.map(|b| b.to_string()),
    }
}

fn refused() -> Reply {
    Reply::Unreachable("connection refused".to_string())
}

fn check(request: &HttpRequest, url: &str, headers: &[(&str, &str)]) {
    assert_eq!(request.method, Method::Get);
    assert_eq!(request.url, url);
    let found: Vec<(&str, &str)> = request
        .headers
        .iter()
        .map(|(k, v)| (k.as_str(), v.as_str()))
        .collect();
    assert_eq!(found, headers);
    assert!(request.body.is_none());
    assert_eq!(request.timeout_secs, Some(10));
}

#[test]
fn azure_token_requests() {
    check(
        &azure_jwt_request(None, "https://management.azure.com/"),
        "http://169.254.169.254/metadata/identity/oauth2/token?api-version=2021-05-01&resource=https%3A%2F%2Fmanagement%2Eazure%2Ecom%2F",
        &[("Metadata", "true")],
    );
    check(
        &azure_jwt_request(Some("http://localhost:1"), "aZ09 ~é"),
        "http://localhost:1/metadata/identity/oauth2/token?api-version=2021-05-01&resource=aZ09%20%7E%C3%A9",
        &[("Metadata", "true")],
    );
}

#[test]
fn azure_metadata_requests() {
    check(
        &azure_vm_metadata_request(None),
        "http://169.254.169.254/metadata/instance/compute?api-version=2021-05-01",
        &[("Metadata", "true")],
    );
    check(
        &azure_vm_metadata_request(Some("http://localhost:1")),
        "http://localhost:1/metadata/instance/compute?api-version=2021-05-01",
        &[("Metadata", "true")],
    );
}

#[test]
fn gce_token_requests() {
    check(
        &gce_jwt_request(None, "http://v:8200/vault/web-role"),
        "http://metadata.google.internal/computeMetadata/v1/instance/service-accounts/default/identity?audience=http%3A%2F%2Fv%3A8200%2Fvault%2Fweb%2Drole&format=full",
        &[("Metadata-Flavor", "Google")],
    );
    check(
        &gce_jwt_request(Some("http://g"), ""),
        "http://g/computeMetadata/v1/instance/service-accounts/default/identity?audience=&format=full",
        &[("Metadata-Flavor", "Google")],
    );
}

#[test]
fn azure_tokens() {
    let token = || Some("msi-jwt-123".to_string());
    assert_eq!(
        get_azure_jwt(answer(200, Some("{}")), token()),
        Ok("msi-jwt-123".to_string())
    );
    assert_eq!(
        get_azure_jwt(refused(), token()),
        Err("failed to request Azure MSI token".to_string())
    );
    assert_eq!(
        get_azure_jwt(answer(500, Some("msi outage")), None),
        Err("Azure MSI returned HTTP 500 Internal Server Error: msi outage".to_string())
    );
    assert_eq!(
        get_azure_jwt(answer(404, None), token()),
        Err("Azure MSI returned HTTP 404 Not Found: ".to_string())
    );
    assert_eq!(
        get_azure_jwt(answer(200, Some("oops")), None),
        Err("failed to parse Azure MSI token response".to_string())
    );
}

#[test]
fn azure_metadata() {
    let metadata = AzureVmMetadata {
        name: "vm-01".to_string(),
        vm_scale_set_name: String::new(),
        subscription_id: "sub-123".to_string(),
        resource_group_name: "rg-01".to_string(),
    };
    assert_eq!(
        get_azure_vm_metadata(answer(200, Some("{}")), Some(metadata.clone())),
        Ok(metadata)
    );
    assert_eq!(
        get_azure_vm_metadata(refused(), None),
        Err("failed to request Azure VM metadata".to_string())
    );
    assert_eq!(
        get_azure_vm_metadata(answer(403, Some("no")), None),
        Err("Azure metadata returned HTTP 403 Forbidden: no".to_string())
    );
    assert_eq!(
        get_azure_vm_metadata(answer(200, None), None),
        Err("failed to parse Azure VM metadata response".to_string())
    );
}

#[test]
fn gce_tokens() {
    assert_eq!(
        get_gce_jwt(answer(200, Some("\n gce-jwt-123 \n"))),
        Ok("gce-jwt-123".to_string())
    );
    assert_eq!(
        get_gce_jwt(refused()),
        Err("failed to request GCE identity JWT".to_string())
    );
    assert_eq!(
        get_gce_jwt(answer(500, Some("metadata outage"))),
        Err("GCE metadata returned HTTP 500 Internal Server Error: metadata outage".to_string())
    );
    assert_eq!(
        get_gce_jwt(answer(200, None)),
        Err("failed to read GCE identity JWT body".to_string())
    );
}

#[test]
fn ec2_texts() {
    assert_eq!(fetch_ec2(answer(200, Some(" t\n"))), Ok(" t\n".to_string()));
    assert_eq!(
        fetch_ec2(refused()),
        Err("failed to request EC2 instance metadata".to_string())
    );
    assert_eq!(
        fetch_ec2(answer(401, Some(""))),
        Err("EC2 IMDS returned HTTP 401 Unauthorized: ".to_string())
    );
    assert_eq!(
        fetch_ec2(answer(200, None)),
        Err("failed to read EC2 metadata response".to_string())
    );
}

/// Runs the steps for a signature type, with the given texts for replies.
fn ec2(sig: Ec2SignatureType, replies: &[&str]) -> (Vec<String>, Vec<(String, String)>) {
    let mut urls = Vec::new();
    let mut texts: Vec<String> = Vec::new();
    loop {
        match get_ec2_metadata(sig, Some("http://e"), &texts) {
            Ec2Step::Fetch(request) => {
                check(&request, &request.url.clone(), &[]);
                urls.push(request.url);
                texts.push(replies[texts.len()].to_string());
            }
            Ec2Step::Done(fields) => {
                let mut fields = fields.entries().clone();
                fields.sort();
                return (urls, fields);
            }
        }
    }
}

#[test]
fn ec2_pkcs7() {
    assert_eq!(
        ec2(Ec2SignatureType::Pkcs7, &["pkcs7-payload\n"]),
        (
            vec!["http://e/latest/dynamic/instance-identity/pkcs7".to_string()],
            vec![("pkcs7".to_string(), "pkcs7-payload".to_string())]
        )
    );
}

#[test]
fn ec2_identity() {
    assert_eq!(
        ec2(Ec2SignatureType::Identity, &["identity-doc", " rsa-sig\n"]),
        (
            vec![
                "http://e/latest/dynamic/instance-identity/document".to_string(),
                "http://e/latest/dynamic/instance-identity/signature".to_string()
            ],
            vec![
                ("identity".to_string(), "aWRlbnRpdHktZG9j".to_string()),
                ("signature".to_string(), "rsa-sig".to_string())
            ]
        )
    );
}

#[test]
fn ec2_rsa2048() {
    assert_eq!(
        ec2(Ec2SignatureType::Rsa2048, &["rsa2048-payload"]),
        (
            vec!["http://e/latest/dynamic/instance-identity/rsa2048".to_string()],
            vec![("pkcs7".to_string(), "rsa2048-payload".to_string())]
        )
    );
}

#[test]
fn ec2_documents_are_encoded_untrimmed() {
    let cases = [
        ("", ""),
        ("f", "Zg=="),
        ("fo", "Zm8="),
        ("foo", "Zm9v"),
        ("foob", "Zm9vYg=="),
        ("fooba", "Zm9vYmE="),
        ("foobar", "Zm9vYmFy"),
        (" ÿ\u{3ff}>>?\n", "IMO/z78+Pj8K"),
    ];
    for (document, encoded) in cases {
        let (_, fields) = ec2(Ec2SignatureType::Identity, &[document, ""]);
        assert_eq!(fields[0], ("identity".to_string(), encoded.to_string()));
    }
}

#[test]
fn ec2_is_asked_where_it_usually_is() {
    match get_ec2_metadata(Ec2SignatureType::Pkcs7, None, &Vec::new()) {
        Ec2Step::Fetch(request) => assert_eq!(
            request.url,
            "http://169.254.169.254/latest/dynamic/instance-identity/pkcs7"
        ),
        Ec2Step::Done(_) => panic!("expected a request"),
    }
}

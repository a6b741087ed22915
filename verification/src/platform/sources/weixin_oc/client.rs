//! The iLink bot API client's addressing, headers and media encryption.
use vstd::prelude::*;

use crate::platform::sources::weixin_oc::crypto::{
    aes_ecb_decrypt, aes_ecb_decrypt_result, aes_ecb_encrypt, ecb_encrypted, hex_decodable,
    hex_decode, hex_decoded, media_aes_key, parse_media_aes_key, pkcs7_padded, valid_aes_key,
};
use crate::text::{push_str, str_eq, string_from, trim_end_char, trim_end_matches_char,
    trim_start_char, trim_start_matches_char, starts_with};
use vstd::utf8::encode_utf8;

verus! {

/// Where and how the iLink bot API is reached; the HTTP transport itself lives
/// with the caller.
pub struct WeixinOCClient {
    pub base_url: String,
    pub cdn_base_url: String,
    pub api_timeout_ms: u64,
    pub token: Option<String>,
}

/// The HTTP methods the API is called with.
#[derive(Debug, Clone, Copy, PartialEq, Eq, Structural)]
pub enum HttpMethod {
    Get,
    Post,
}

/// The URL of `endpoint` under `base`: exactly one `/` between them.
pub open spec fn resolved_url(base: Seq<char>, endpoint: Seq<char>) -> Seq<char> {
    trim_end_char(base, '/') + "/"@ + trim_start_char(endpoint, '/')
}

/// The CDN upload URL for an upload parameter and file key.
pub open spec fn cdn_upload_url(cdn_base: Seq<char>, upload_param: Seq<char>, file_key: Seq<char>) -> Seq<char> {
    trim_end_char(cdn_base, '/') + "/upload?encrypted_query_param="@ + upload_param + "&filekey="@
        + file_key
}

/// The CDN download URL for an encrypted query parameter.
pub open spec fn cdn_download_url(cdn_base: Seq<char>, param: Seq<char>) -> Seq<char> {
    trim_end_char(cdn_base, '/') + "/download?encrypted_query_param="@ + param
}

/// The headers of an API request: JSON content, the iLink authorization type, and
/// the bearer token when the request needs one and a token is known.
pub open spec fn request_headers(token: Option<Seq<char>>, token_required: bool) -> Seq<(Seq<char>, Seq<char>)> {
    let base = seq![("content-type"@, "application/json"@), ("AuthorizationType"@, "ilink_bot_token"@)];
    match token {
        Some(t) => if token_required {
            base.push(("authorization"@, "Bearer "@ + t))
        } else {
            base
        },
        None => base,
    }
}

impl WeixinOCClient {
    pub fn new(base_url: &str, cdn_base_url: &str, api_timeout_ms: u64, token: Option<String>) -> (r: WeixinOCClient)
        ensures
            r.base_url@ == base_url@,
            r.cdn_base_url@ == cdn_base_url@,
            r.api_timeout_ms == api_timeout_ms,
            r.token == token,
    {
        WeixinOCClient {
            base_url: string_from(base_url),
            cdn_base_url: string_from(cdn_base_url),
            api_timeout_ms,
            token,
        }
    }

    /// The full URL of an API endpoint.
    pub fn resolve_url(&self, endpoint: &str) -> (r: String)
        ensures
            r@ == resolved_url(self.base_url@, endpoint@),
    {
        let mut u = trim_end_matches_char(self.base_url.as_str(), '/');
        push_str(&mut u, "/");
        let e = trim_start_matches_char(endpoint, '/');
        push_str(&mut u, e.as_str());
        u
    }

    /// The headers of a request, as name/value pairs.
    pub fn build_headers(&self, token_required: bool) -> (r: Vec<(String, String)>)
        ensures
            Seq::new(r@.len(), |i: int| (r@[i].0@, r@[i].1@)) == request_headers(
                match self.token {
                    Some(t) => Some(t@),
                    None => None,
                },
                token_required,
            ),
    {
        let mut h: Vec<(String, String)> = Vec::new();
        h.push((string_from("content-type"), string_from("application/json")));
        h.push((string_from("AuthorizationType"), string_from("ilink_bot_token")));
        if token_required {
            match &self.token {
                Some(t) => {
                    let mut v = string_from("Bearer ");
                    push_str(&mut v, t.as_str());
                    h.push((string_from("authorization"), v));
                },
                None => {},
            }
        }
        let ghost hv = Seq::new(h@.len(), |i: int| (h@[i].0@, h@[i].1@));
        assert(hv =~= request_headers(
            match self.token {
                Some(t) => Some(t@),
                None => None,
            },
            token_required,
        ));
        h
    }

    /// The method a request names; only `GET` and `POST` are used.
    pub fn request_method(method: &str) -> (r: Result<HttpMethod, String>)
        ensures
            method@ == "GET"@ ==> r == Ok::<HttpMethod, String>(HttpMethod::Get),
            method@ == "POST"@ ==> r == Ok::<HttpMethod, String>(HttpMethod::Post),
            method@ != "GET"@ && method@ != "POST"@ ==> (r matches Err(e) && e@
                == "unsupported method: "@ + method@),
    {
        proof {
            reveal_strlit("GET");
            reveal_strlit("POST");
            assert("GET"@.len() != "POST"@.len());
        }
        if str_eq(method, "GET") {
            Ok(HttpMethod::Get)
        } else if str_eq(method, "POST") {
            Ok(HttpMethod::Post)
        } else {
            let mut m = string_from("unsupported method: ");
            push_str(&mut m, method);
            Err(m)
        }
    }

    /// The CDN upload URL for an upload parameter and file key.
    pub fn build_cdn_upload_url(&self, upload_param: &str, file_key: &str) -> (r: String)
        ensures
            r@ == cdn_upload_url(self.cdn_base_url@, upload_param@, file_key@),
    {
        let mut u = trim_end_matches_char(self.cdn_base_url.as_str(), '/');
        push_str(&mut u, "/upload?encrypted_query_param=");
        push_str(&mut u, upload_param);
        push_str(&mut u, "&filekey=");
        push_str(&mut u, file_key);
        u
    }

    /// The CDN download URL for an encrypted query parameter.
    pub fn build_cdn_download_url(&self, encrypted_query_param: &str) -> (r: String)
        ensures
            r@ == cdn_download_url(self.cdn_base_url@, encrypted_query_param@),
    {
        let mut u = trim_end_matches_char(self.cdn_base_url.as_str(), '/');
        push_str(&mut u, "/download?encrypted_query_param=");
        push_str(&mut u, encrypted_query_param);
        u
    }

    /// What a CDN upload sends and where: the given full URL (else the one built from
    /// the upload parameter and file key), and `data` encrypted with AES-ECB under
    /// the key spelled by `aes_key_hex`.
    pub fn prepare_cdn_upload(
        &self,
        upload_full_url: Option<&str>,
        upload_param: &str,
        file_key: &str,
        aes_key_hex: &str,
        data: &[u8],
    ) -> (r: Result<(String, Vec<u8>), String>)
        ensures
            ({
                let kb = encode_utf8(aes_key_hex@);
                match r {
                    Ok((url, ct)) => {
                        &&& url@ == match upload_full_url {
                            Some(u) => u@,
                            None => cdn_upload_url(self.cdn_base_url@, upload_param@, file_key@),
                        }
                        &&& hex_decodable(kb)
                        &&& valid_aes_key(hex_decoded(kb))
                        &&& ct@ == ecb_encrypted(hex_decoded(kb), pkcs7_padded(data@))
                        &&& aes_ecb_decrypt_result(hex_decoded(kb), ct@) == Ok::<Seq<u8>, Seq<char>>(data@)
                    },
                    Err(e) => !hex_decodable(kb) || !valid_aes_key(hex_decoded(kb)),
                }
            }),
    {
        let url = match upload_full_url {
            Some(u) => string_from(u),
            None => self.build_cdn_upload_url(upload_param, file_key),
        };
        let key = match hex_decode(aes_key_hex.as_bytes()) {
            Ok(k) => k,
            Err(e) => {
                let mut m = string_from("hex decode: ");
                push_str(&mut m, e.as_str());
                return Err(m);
            },
        };
        match aes_ecb_encrypt(key.as_slice(), data) {
            Ok(ct) => Ok((url, ct)),
            Err(e) => Err(e),
        }
    }

    /// Decrypts media downloaded from the CDN with the key given in the message
    /// (see `parse_media_aes_key`).
    pub fn decrypt_downloaded_media(encrypted: &[u8], aes_key_value: &str) -> (r: Result<Vec<u8>, String>)
        ensures
            match media_aes_key(aes_key_value@) {
                None => (r matches Err(e) && starts_with(e@, "parse aes key: "@)),
                Some(k) => match r {
                    Ok(v) => aes_ecb_decrypt_result(k, encrypted@) == Ok::<Seq<u8>, Seq<char>>(v@),
                    Err(e) => aes_ecb_decrypt_result(k, encrypted@) == Err::<Seq<u8>, Seq<char>>(e@),
                },
            },
    {
        let key = match parse_media_aes_key(aes_key_value) {
            Ok(k) => k,
            Err(e) => {
                let mut m = string_from("parse aes key: ");
                proof {
                    reveal_strlit("parse aes key: ");
                }
                let ghost prefix = m@;
                push_str(&mut m, e.as_str());
                assert(m@.take(prefix.len() as int) =~= prefix);
                return Err(m);
            },
        };
        aes_ecb_decrypt(key.as_slice(), encrypted)
    }
}

/// What an API response's status means: a status outside 2xx fails the request
/// with `HTTP <status>: <body>`.
pub fn api_status_check(status: u16, status_text: &str, body: &str) -> (r: Result<(), String>)
    ensures
        200 <= status <= 299 ==> r is Ok,
        !(200 <= status <= 299) ==> (r matches Err(e) && e@ == "HTTP "@ + status_text@ + ": "@ + body@),
{
    if 200 <= status && status <= 299 {
        Ok(())
    } else {
        let mut m = string_from("HTTP ");
        push_str(&mut m, status_text);
        push_str(&mut m, ": ");
        push_str(&mut m, body);
        Err(m)
    }
}

/// What a CDN upload's answer means: a client error (4xx) or another status
/// outside 2xx fails it with the status and body; a success needs the
/// `x-encrypted-param` header, whose value is the download parameter.
pub fn cdn_upload_outcome(status: u16, status_text: &str, body: &str, encrypted_param: Option<&str>) -> (r: Result<String, String>)
    ensures
        400 <= status <= 499 ==> (r matches Err(e) && e@ == "CDN upload client error "@ + status_text@ + ": "@ + body@),
        !(400 <= status <= 499) && !(200 <= status <= 299) ==> (r matches Err(e) && e@ == "CDN upload failed "@
            + status_text@ + ": "@ + body@),
        200 <= status <= 299 ==> match encrypted_param {
            Some(p) => r matches Ok(v) && v@ == p@,
            None => r matches Err(e) && e@ == "missing x-encrypted-param header"@,
        },
{
    if 400 <= status && status <= 499 {
        let mut m = string_from("CDN upload client error ");
        push_str(&mut m, status_text);
        push_str(&mut m, ": ");
        push_str(&mut m, body);
        return Err(m);
    }
    if !(200 <= status && status <= 299) {
        let mut m = string_from("CDN upload failed ");
        push_str(&mut m, status_text);
        push_str(&mut m, ": ");
        push_str(&mut m, body);
        return Err(m);
    }
    match encrypted_param {
        Some(p) => Ok(string_from(p)),
        None => Err(string_from("missing x-encrypted-param header")),
    }
}

/// What a CDN download's status means: a client or server error (4xx, 5xx) fails
/// it with `CDN download <status>`.
pub fn cdn_download_check(status: u16, status_text: &str) -> (r: Result<(), String>)
    ensures
        400 <= status <= 599 ==> (r matches Err(e) && e@ == "CDN download "@ + status_text@),
        !(400 <= status <= 599) ==> r is Ok,
{
    if 400 <= status && status <= 599 {
        let mut m = string_from("CDN download ");
        push_str(&mut m, status_text);
        Err(m)
    } else {
        Ok(())
    }
}

} // verus!

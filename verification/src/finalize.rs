//! The conversation-finalize endpoint: its response, and the error reported
//! for each HTTP status it answers with.
use vstd::prelude::*;
use crate::text::{copy_str, opt_str, push_str};

verus! {

/// Response of the conversation-finalize endpoint.
#[derive(Debug, Clone)]
pub struct FinalizeResponse {
    pub ok: bool,
    pub conversation_id: Option<String>,
    pub discarded: Option<bool>,
    pub words_count: Option<u32>,
    pub segments_count: Option<u32>,
    pub error: Option<String>,
}

/// The error the finalize call reports for an HTTP status, or `None` when
/// the status is a success and the body is to be parsed. `status_text` is
/// the status as displayed (`"500 Internal Server Error"`), `body` the
/// response body.
pub fn finalize_status_error(
    code: u16,
    status_text: &str,
    conversation_id: &str,
    body: &str,
) -> (r: Option<String>)
    ensures
        code == 401 ==> opt_str(r) == Some(
            "auth:Tu sesión ha expirado. Por favor cierra sesión y vuelve a iniciar."@,
        ),
        code == 403 ==> opt_str(r) == Some(
            "auth:No tienes permiso para analizar esta conversación."@,
        ),
        code == 404 ==> opt_str(r) == Some(
            "not_found:Conversación "@ + conversation_id@ + " no encontrada."@,
        ),
        code == 400 ==> opt_str(r) == Some(
            "validation:La conversación no tiene segmentos de transcripción. ("@ + body@ + ")"@,
        ),
        500 <= code <= 599 ==> opt_str(r) == Some(
            "server:Error del servidor al analizar conversación ("@ + status_text@ + ")"@,
        ),
        200 <= code <= 299 ==> r is None,
        !(200 <= code <= 299 || 500 <= code <= 599 || code == 400 || code == 401 || code == 403
            || code == 404) ==> opt_str(r) == Some(
            "unknown:HTTP "@ + status_text@ + " - "@ + body@,
        ),
{
    if code == 401 {
        return Some(copy_str("auth:Tu sesión ha expirado. Por favor cierra sesión y vuelve a iniciar."));
    }
    if code == 403 {
        return Some(copy_str("auth:No tienes permiso para analizar esta conversación."));
    }
    if code == 404 {
        let mut m = copy_str("not_found:Conversación ");
        push_str(&mut m, conversation_id);
        push_str(&mut m, " no encontrada.");
        return Some(m);
    }
    if code == 400 {
        let mut m = copy_str("validation:La conversación no tiene segmentos de transcripción. (");
        push_str(&mut m, body);
        push_str(&mut m, ")");
        return Some(m);
    }
    if 500 <= code && code <= 599 {
        let mut m = copy_str("server:Error del servidor al analizar conversación (");
        push_str(&mut m, status_text);
        push_str(&mut m, ")");
        return Some(m);
    }
    if !(200 <= code && code <= 299) {
        let mut m = copy_str("unknown:HTTP ");
        push_str(&mut m, status_text);
        push_str(&mut m, " - ");
        push_str(&mut m, body);
        return Some(m);
    }
    None
}

/// The error reported when the request does not reach the endpoint.
pub fn finalize_network_error(cause: &str) -> (r: String)
    ensures
        r@ == "network:Error de conexión al analizar conversación. Verifica tu internet. ("@
            + cause@ + ")"@,
{
    let mut m = copy_str("network:Error de conexión al analizar conversación. Verifica tu internet. (");
    push_str(&mut m, cause);
    push_str(&mut m, ")");
    m
}

/// The error reported when the body does not parse.
pub fn invalid_response_error(cause: &str) -> (r: String)
    ensures
        r@ == "server:Respuesta del servidor inválida: "@ + cause@,
{
    let mut m = copy_str("server:Respuesta del servidor inválida: ");
    push_str(&mut m, cause);
    m
}

} // verus!

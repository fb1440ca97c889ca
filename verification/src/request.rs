//! Building the outbound vision request: the instruction prompt with its
//! geographic context block, and the JSON request body carrying the prompt
//! and the inline image.

use vstd::prelude::*;
use vstd::string::*;

use base64::Engine;

use crate::context::{build_context_lines, context_lines_spec, join_lines, joined_lines, ContextInput};
use crate::numfmt::digit_char;

verus! {

/// Opening of the geographic context block.
pub const GEO_HEAD: &'static str = "\n\nCONTEXTO GEOGRÁFICO Y TEMPORAL DE LA CAPTURA:\n";

/// Closing of the geographic context block: how the model must use it.
pub const GEO_TAIL: &'static str = "\n\nUSA ESTE CONTEXTO PARA VALIDAR AUTENTICIDAD:\n- Verificar coherencia entre iluminación de la imagen y posición solar esperada\n- Si es NOCHE pero imagen muestra sol brillante → probablemente SCREEN_PHOTO\n- Si dirección de sombras no coincide con posición solar → SCREEN_PHOTO o editada\n- Comparar dirección de cámara con posición del sol para validar iluminación\n- Diferenciar entre originales y réplicas basándose en ubicación GPS\n- Detectar fotos de pantallas por inconsistencias temporales/lumínicas\n";

/// The geographic context block: empty when there are no lines, else the
/// joined lines framed by the fixed head and tail.
pub open spec fn geographic_context_spec(lines: Seq<Seq<char>>) -> Seq<char> {
    if lines.len() == 0 {
        Seq::empty()
    } else {
        GEO_HEAD@ + joined_lines(lines) + GEO_TAIL@
    }
}

/// Assembles the geographic context block from the context lines.
pub fn build_geographic_context(lines: &Vec<String>) -> (r: String)
    ensures
        r@ == geographic_context_spec(lines.deep_view()),
{
    if lines.len() == 0 {
        String::new()
    } else {
        let mut out = String::from_str(GEO_HEAD);
        out.append(join_lines(lines).as_str());
        out.append(GEO_TAIL);
        out
    }
}

/// Instruction template up to the point where the context block is inserted:
/// the output schema the model must answer with.
pub const PROMPT_HEAD: &'static str = r#"Analiza esta imagen y proporciona información detallada en formato JSON con la siguiente estructura:
{
  "name": "Nombre del lugar, monumento, animal o concepto principal",
  "type": "LUGAR/MONUMENTO/NATURALEZA/ANIMAL/OBJETO/OTRO",
  "category": "Categoría específica (LANDMARK/NATURE/WILDLIFE/FOOD/ARCHITECTURE/ART/CULTURE/TRANSPORTATION)",
  "tags": ["descriptive", "searchable", "keywords"],
  "description": "Descripción detallada de lo que se ve",
  "rarity": "COMMON/UNCOMMON/RARE/VERY_RARE/LEGENDARY",
  "confidence": 0.95,
  "difficulty": "EASY/MEDIUM/HARD/EXPERT",
  "specificity_level": "Nivel de especificidad de la identificación",
  "broader_context": "Contexto más amplio o información adicional",
  "encounter_rarity": "Qué tan difícil es encontrar esto aquí",
  "authenticity": "AUTHENTIC/REPLICA/SCREEN_PHOTO/UNCERTAIN",
  "geographic_match": true,
  "verified": true,
  "authenticity_reasoning": "Explicación de por qué es auténtico, réplica o foto de pantalla basándose en ubicación y contexto",
  "verification_reasoning": "Explicación de por qué está verificado o no basándose en conocimiento geográfico del hábitat/ubicación natural"
}"#;

/// Rest of the instruction template: the grading rules for tags, difficulty,
/// authenticity, geographic match and the verified certification.
pub const PROMPT_TAIL: &'static str = r#"

REGLAS para tags (3-8 tags por imagen):
- Incluir: características físicas, contexto cultural, época, materiales, colores dominantes, ubicación geográfica
- Formato: lowercase, sin acentos, singular, en español
- Ejemplos: ["volcanico", "unesco", "colonial", "turquesa", "cascada", "tropical"]
- Evitar: duplicar el nombre exacto o la categoría

REGLAS para difficulty:
- EASY: Muy común, fácil de encontrar, visible desde lejos
- MEDIUM: Requiere buscar un poco, moderadamente común
- HARD: Difícil de encontrar, requiere esfuerzo o conocimiento local
- EXPERT: Extremadamente raro, requiere condiciones especiales o permiso

REGLAS para authenticity (MUY IMPORTANTE - USA EL CONTEXTO GEOGRÁFICO Y TEMPORAL):
- AUTHENTIC: Objeto/lugar real capturado en su ubicación original. Verifica:
  * Ubicación GPS coincide con donde debería estar el objeto
  * Iluminación coherente con hora del día y posición solar calculada
  * Sombras apuntan en dirección correcta según posición del sol
  * Si es NOCHE (elevación solar negativa), imagen debe ser nocturna
- REPLICA: Copia o réplica del objeto original en diferente ubicación (ej: Torre Eiffel en Las Vegas cuando GPS dice USA)
- SCREEN_PHOTO: Foto de una pantalla, fotografía impresa, póster o imagen digital. Indicadores críticos:
  * Píxeles visibles, patrón de matriz de pantalla
  * Brillo artificial o reflexiones de vidrio/pantalla
  * Iluminación inconsistente con hora y posición solar (ej: sol brillante cuando es noche)
  * Sombras en dirección imposible para la ubicación/hora
  * Marco de foto, borde de pantalla o dispositivo visible
  * Calidad de imagen degradada (foto de foto)
- UNCERTAIN: No hay suficiente información para determinar

REGLAS para geographic_match:
- true: La ubicación GPS es coherente con el objeto identificado Y la iluminación coincide con hora/posición solar
- false: La ubicación GPS NO coincide O hay inconsistencias temporales graves
- null: No hay suficiente contexto geográfico para determinar

REGLAS para verified (VALIDACIÓN GEOGRÁFICA ESTRICTA):
Este campo certifica que el objeto/animal/lugar es REALMENTE observable desde la ubicación GPS proporcionada.

✅ verified = true SOLO SI SE CUMPLEN TODAS:
1. authenticity = "AUTHENTIC" (no réplica, no screen_photo)
2. geographic_match = true (GPS coincide)
3. Para ANIMALES: El animal existe naturalmente en esa región O está en un zoo/santuario CONOCIDO en esa ubicación específica
   - Ejemplo: León en Kenia (Masai Mara) → verified=true
   - Ejemplo: Elefante en Costa Rica (ubicación aleatoria) → verified=false
   - Ejemplo: Elefante en "Zoo Simón Bolívar, San José, CR" → verified=true (zoo conocido)
4. Para LUGARES/MONUMENTOS: El lugar existe en esas coordenadas GPS exactas
   - Ejemplo: Torre Eiffel en París (48.858°N, 2.294°E) → verified=true
   - Ejemplo: Torre Eiffel en Las Vegas → verified=false (réplica)
5. Para NATURALEZA: El fenómeno natural es posible en esa ubicación geográfica
   - Ejemplo: Volcán Arenal en La Fortuna, CR → verified=true
   - Ejemplo: Glaciar en Ecuador → verified=false (geográficamente improbable)
6. Iluminación y hora coherentes (no foto de pantalla)

❌ verified = false SI CUALQUIERA:
- Es una réplica en ubicación diferente
- Es foto de pantalla/póster
- Animal fuera de su hábitat natural y NO en zoo conocido
- Ubicación GPS imposible para el objeto
- Inconsistencias temporales (hora vs iluminación)

⚠️ IMPORTANTE: No asumas que hay zoos o santuarios a menos que el contexto geográfico mencione un lugar específico conocido.

Responde ÚNICAMENTE con el JSON, sin texto adicional."#;

/// The full instruction prompt for one capture.
pub open spec fn prompt_spec(c: ContextInput) -> Seq<char> {
    PROMPT_HEAD@ + geographic_context_spec(context_lines_spec(c)) + PROMPT_TAIL@
}

/// Builds the full instruction prompt: the fixed template with the capture's
/// geographic context block inserted.
pub fn build_prompt(c: &ContextInput) -> (r: String)
    requires
        (c.timestamp matches Some(t) ==> t.wf()),
        (c.solar matches Some(p) ==> p.wf()),
    ensures
        r@ == prompt_spec(*c),
{
    let lines = build_context_lines(c);
    let context = build_geographic_context(&lines);
    let mut prompt = String::from_str(PROMPT_HEAD);
    prompt.append(context.as_str());
    prompt.append(PROMPT_TAIL);
    prompt
}

/// What the standard padded base64 encoding returns for these bytes.
pub uninterp spec fn base64_of(bytes: Seq<u8>) -> Seq<char>;

/// Relies on `base64::engine::general_purpose::STANDARD.encode`: a
/// deterministic padded encoding, four output characters for every three
/// input bytes.
#[verifier::external_body]
pub fn base64_encode(bytes: &[u8]) -> (r: String)
    ensures
        r@ == base64_of(bytes@),
        r@.len() == 4 * ((bytes@.len() + 2) / 3),
{
    base64::engine::general_purpose::STANDARD.encode(bytes)
}

/// JSON escaping of one character, as a JSON string body holds it.
pub open spec fn escape_char(c: char) -> Seq<char> {
    if c == '"' {
        seq!['\\', '"']
    } else if c == '\\' {
        seq!['\\', '\\']
    } else if c == '\n' {
        seq!['\\', 'n']
    } else if c == '\r' {
        seq!['\\', 'r']
    } else if c == '\t' {
        seq!['\\', 't']
    } else if c == '\u{8}' {
        seq!['\\', 'b']
    } else if c == '\u{c}' {
        seq!['\\', 'f']
    } else if (c as u32) < 0x20 {
        seq!['\\', 'u', '0', '0', digit_char(((c as u32) / 16) as int), hex_char((c as u32) % 16)]
    } else {
        seq![c]
    }
}

/// Lower-case hexadecimal digit for a value below 16.
pub open spec fn hex_char(d: u32) -> char {
    if d < 10 {
        digit_char(d as int)
    } else if d == 10 {
        'a'
    } else if d == 11 {
        'b'
    } else if d == 12 {
        'c'
    } else if d == 13 {
        'd'
    } else if d == 14 {
        'e'
    } else {
        'f'
    }
}

/// JSON escaping of a whole string body.
pub open spec fn escape_seq(s: Seq<char>) -> Seq<char>
    decreases s.len(),
{
    if s.len() == 0 {
        Seq::empty()
    } else {
        escape_seq(s.drop_last()) + escape_char(s.last())
    }
}

/// Relies on `String::push`: appends one character.
#[verifier::external_body]
fn push_char(s: &mut String, c: char)
    ensures
        final(s)@ == old(s)@.push(c),
{
    s.push(c)
}

fn hex_char_exec(d: u32) -> (r: char)
    requires
        d < 16,
    ensures
        r == hex_char(d),
{
    if d == 0 {
        '0'
    } else if d == 1 {
        '1'
    } else if d == 2 {
        '2'
    } else if d == 3 {
        '3'
    } else if d == 4 {
        '4'
    } else if d == 5 {
        '5'
    } else if d == 6 {
        '6'
    } else if d == 7 {
        '7'
    } else if d == 8 {
        '8'
    } else if d == 9 {
        '9'
    } else if d == 10 {
        'a'
    } else if d == 11 {
        'b'
    } else if d == 12 {
        'c'
    } else if d == 13 {
        'd'
    } else if d == 14 {
        'e'
    } else {
        'f'
    }
}

/// Escapes a string for inclusion in a JSON string literal.
pub fn json_escape(s: &str) -> (r: String)
    ensures
        r@ == escape_seq(s@),
{
    let len = s.unicode_len();
    let mut out = String::new();
    let mut i: usize = 0;
    while i < len
        invariant
            len == s@.len(),
            i <= len,
            out@ == escape_seq(s@.take(i as int)),
        decreases len - i,
    {
        let c = s.get_char(i);
        proof {
            assert(s@.take(i + 1).drop_last() =~= s@.take(i as int));
            assert(s@.take(i + 1).last() == s@[i as int]);
        }
        if c == '"' {
            out.append("\\\"");
            assert(out@ =~= escape_seq(s@.take(i + 1))) by {
                reveal_strlit("\\\"");
            }
        } else if c == '\\' {
            out.append("\\\\");
            assert(out@ =~= escape_seq(s@.take(i + 1))) by {
                reveal_strlit("\\\\");
            }
        } else if c == '\n' {
            out.append("\\n");
            assert(out@ =~= escape_seq(s@.take(i + 1))) by {
                reveal_strlit("\\n");
            }
        } else if c == '\r' {
            out.append("\\r");
            assert(out@ =~= escape_seq(s@.take(i + 1))) by {
                reveal_strlit("\\r");
            }
        } else if c == '\t' {
            out.append("\\t");
            assert(out@ =~= escape_seq(s@.take(i + 1))) by {
                reveal_strlit("\\t");
            }
        } else if c == '\u{8}' {
            out.append("\\b");
            assert(out@ =~= escape_seq(s@.take(i + 1))) by {
                reveal_strlit("\\b");
            }
        } else if c == '\u{c}' {
            out.append("\\f");
            assert(out@ =~= escape_seq(s@.take(i + 1))) by {
                reveal_strlit("\\f");
            }
        } else if (c as u32) < 0x20 {
            out.append("\\u00");
            proof {
                reveal_strlit("\\u00");
            }
            let hi: u32 = (c as u32) / 16;
            let lo: u32 = (c as u32) % 16;
            push_char(&mut out, if hi == 0 {
                '0'
            } else {
                '1'
            });
            let lo_char = hex_char_exec(lo);
            push_char(&mut out, lo_char);
            assert(out@ =~= escape_seq(s@.take(i + 1)));
        } else {
            push_char(&mut out, c);
            assert(out@ =~= escape_seq(s@.take(i + 1)));
        }
        i = i + 1;
    }
    proof {
        assert(s@.take(len as int) =~= s@);
    }
    out
}

/// The request body around the escaped prompt and the encoded image: one
/// content with a text part and an inline `image/jpeg` data part.
pub open spec fn request_body_spec(prompt: Seq<char>, image_b64: Seq<char>) -> Seq<char> {
    "{\"contents\":[{\"parts\":[{\"text\":\""@ + escape_seq(prompt)
        + "\"},{\"inlineData\":{\"mimeType\":\"image/jpeg\",\"data\":\""@ + image_b64
        + "\"}}]}]}"@
}

/// Frames the JSON request body for one vision call.
pub fn build_request_body(prompt: &str, image_b64: &str) -> (r: String)
    ensures
        r@ == request_body_spec(prompt@, image_b64@),
{
    let mut body = String::from_str("{\"contents\":[{\"parts\":[{\"text\":\"");
    body.append(json_escape(prompt).as_str());
    body.append("\"},{\"inlineData\":{\"mimeType\":\"image/jpeg\",\"data\":\"");
    body.append(image_b64);
    body.append("\"}}]}]}");
    body
}

/// The endpoint URL of one vision call:
/// `<endpoint>/<model>:generateContent?key=<api key>`.
pub fn build_vision_url(endpoint: &str, model: &str, api_key: &str) -> (r: String)
    ensures
        r@ == endpoint@ + "/"@ + model@ + ":generateContent?key="@ + api_key@,
{
    let mut url = String::from_str("");
    url.append(endpoint);
    url.append("/");
    url.append(model);
    url.append(":generateContent?key=");
    url.append(api_key);
    proof {
        reveal_strlit("");
    }
    assert(url@ =~= endpoint@ + "/"@ + model@ + ":generateContent?key="@ + api_key@);
    url
}

/// Builds the complete outbound request for one capture: the prompt from the
/// context, the image encoded inline, both framed as the JSON body.
pub fn build_vision_request(c: &ContextInput, image_bytes: &[u8]) -> (r: String)
    requires
        (c.timestamp matches Some(t) ==> t.wf()),
        (c.solar matches Some(p) ==> p.wf()),
    ensures
        r@ == request_body_spec(prompt_spec(*c), base64_of(image_bytes@)),
{
    let prompt = build_prompt(c);
    let encoded = base64_encode(image_bytes);
    build_request_body(prompt.as_str(), encoded.as_str())
}

} // verus!

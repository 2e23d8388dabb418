//! The `translate` command: the instructions given to the language model, and
//! how its answer is cleaned before it is shown.

use vstd::prelude::*;
use crate::text::{chars_of, index_from, lemma_index_from, occurs_at, string_of, trim, trim_chars};
use regex::Regex;

verus! {

/// The instructions given to the model before the text to translate.
pub open spec fn system_prompt_text() -> Seq<char> {
    "Eres un traductor multilingüe que convierte texto de un idioma a otro. Responde únicamentecon la traducción exacta del texto proporcionado, utilizando el alfabeto nativo del idioma de salida.No uses transliteraciones (como romanji en japonés) ni caracteres que no sean propios del idioma de salida.La respuesta debe ser limpia, sin paréntesis, notas, ni comentarios adicionales. Ejemplo:Texto de entrada: 'Hola, ¿cómo estás?'Traducción esperada (japonés): 'こんにちは、お元気ですか？'Traducción incorrecta: 'Konnichiwa, ogenki desu ka?'"@
}

/// The system message: the instructions, then `. Idioma de salida: ` and the
/// language asked for.
pub fn system_prompt(lang: &str) -> (s: String)
    ensures
        s@ == system_prompt_text() + ". Idioma de salida: "@ + lang@,
{
    let mut s = "Eres un traductor multilingüe que convierte texto de un idioma a otro. Responde únicamentecon la traducción exacta del texto proporcionado, utilizando el alfabeto nativo del idioma de salida.No uses transliteraciones (como romanji en japonés) ni caracteres que no sean propios del idioma de salida.La respuesta debe ser limpia, sin paréntesis, notas, ni comentarios adicionales. Ejemplo:Texto de entrada: 'Hola, ¿cómo estás?'Traducción esperada (japonés): 'こんにちは、お元気ですか？'Traducción incorrecta: 'Konnichiwa, ogenki desu ka?'".to_owned();
    s.append(". Idioma de salida: ");
    s.append(lang);
    s
}

/// Opening tag of the model's reasoning.
pub open spec fn think_open() -> Seq<char> {
    "<think>"@
}

/// Closing tag of the model's reasoning.
pub open spec fn think_close() -> Seq<char> {
    "</think>"@
}

/// `s` with every reasoning block removed: scanning left to right, a
/// `<think>` that has a `</think>` after it is removed together with
/// everything up to and including the first such `</think>`; other text is
/// kept. This is what replacing the matches of `(?s)<think>.*?</think>` with
/// nothing gives.
pub open spec fn strip_think(s: Seq<char>) -> Seq<char>
    decreases s.len(),
{
    if s.len() == 0 {
        s
    } else if occurs_at(s, think_open(), 0) && index_from(s, think_close(), think_open().len() as int) < s.len() {
        let j = index_from(s, think_close(), think_open().len() as int);
        proof {
            reveal_strlit("</think>");
            reveal_strlit("<think>");
            lemma_index_from(s, think_close(), think_open().len() as int);
        }
        strip_think(s.subrange(j + think_close().len(), s.len() as int))
    } else {
        seq![s[0]] + strip_think(s.drop_first())
    }
}

/// `Regex::replace_all` with the pattern `(?s)<think>.*?</think>` and an empty
/// replacement: the regex crate removes the leftmost-first, non-overlapping
/// matches, and the lazy `.*?` stops at the first `</think>`; the result is
/// `strip_think` of the text.
#[verifier::external_body]
fn regex_strip_think(text: &str) -> (r: String)
    ensures
        r@ == strip_think(text@),
{
    match Regex::new(r"(?s)<think>.*?</think>") {
        Ok(re) => re.replace_all(text, "").into_owned(),
        Err(_) => text.to_string(),
    }
}

/// The model's answer as it is shown: reasoning blocks removed, then
/// surrounding whitespace trimmed.
pub fn clean_translation(message: &str) -> (r: String)
    ensures
        r@ == trim(strip_think(message@)),
{
    let stripped = regex_strip_think(message);
    let v = chars_of(stripped.as_str());
    let t = trim_chars(&v);
    string_of(&t)
}

} // verus!

use plantita_ayudante::translate::{clean_translation, system_prompt};

#[test]
fn reasoning_is_removed() {
    assert_eq!(clean_translation("<think>pienso\nmucho</think>\n  こんにちは "), "こんにちは");
    assert_eq!(clean_translation("a<think>x</think>b<think>y</think>c"), "abc");
    assert_eq!(clean_translation("a<think>sin cierre"), "a<think>sin cierre");
    assert_eq!(clean_translation("<think>a</think></think>b"), "</think>b");
    assert_eq!(clean_translation("  hola  "), "hola");
}

#[test]
fn prompt_names_the_language() {
    let p = system_prompt("japonés");
    assert!(p.starts_with("Eres un traductor multilingüe"));
    assert!(p.ends_with(". Idioma de salida: japonés"));
    assert!(p.contains("únicamentecon"));
}

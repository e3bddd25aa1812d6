use backloggd_feed::status::{classify, localize_status, Status};

#[test]
fn every_keyword_classifies() {
    assert_eq!(classify("Ana is now playing Celeste"), Status::Playing);
    assert_eq!(classify("Ana played Celeste"), Status::Played);
    assert_eq!(classify("Ana finished Celeste"), Status::Finished);
    assert_eq!(classify("Ana completed Celeste"), Status::Completed);
    assert_eq!(classify("Ana abandoned Celeste"), Status::Abandoned);
    assert_eq!(classify("Ana shelved Celeste"), Status::Shelved);
    assert_eq!(classify("Ana retired Celeste"), Status::Retired);
}

#[test]
fn unrecognized_text_falls_back() {
    assert_eq!(classify("Ana rated Celeste"), Status::Unknown);
    assert_eq!(classify(""), Status::Unknown);
}

#[test]
fn priority_order_decides_over_textual_position() {
    // "finished" appears first in the text, but "played" has the higher
    // priority and wins.
    assert_eq!(classify("finished once, played again"), Status::Played);
    // "now playing" outranks everything.
    assert_eq!(classify("played and finished but now playing"), Status::Playing);
    // Plain "playing" is not the "now playing" keyword.
    assert_eq!(classify("Ana finished playing Celeste"), Status::Finished);
}

#[test]
fn localization_is_deterministic_and_distinct() {
    let texts = [
        localize_status(&Status::Playing),
        localize_status(&Status::Played),
        localize_status(&Status::Finished),
        localize_status(&Status::Completed),
        localize_status(&Status::Abandoned),
        localize_status(&Status::Shelved),
        localize_status(&Status::Retired),
        localize_status(&Status::Unknown),
    ];
    assert_eq!(texts[0], "Jugando");
    assert_eq!(texts[1], "Jugado");
    assert_eq!(texts[2], "Terminado");
    assert_eq!(texts[3], "Completado");
    assert_eq!(texts[4], "Abandonado");
    assert_eq!(texts[5], "Aparcado");
    assert_eq!(texts[6], "Retirado");
    assert_eq!(texts[7], "No sé que ha hecho");
    for i in 0..texts.len() {
        for j in 0..texts.len() {
            if i != j {
                assert_ne!(texts[i], texts[j]);
            }
        }
    }
}

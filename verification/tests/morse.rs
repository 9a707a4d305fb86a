use cryptan::encoding::morse::{decode_token, lang_of_name};
use cryptan::encoding::morse_code::{code_of, symbol};
use cryptan::{Codec, Morse, MorseLang};

const INTERNATIONAL: [(char, &str); 36] = [
    ('A', ".-"),
    ('B', "-..."),
    ('C', "-.-."),
    ('D', "-.."),
    ('E', "."),
    ('F', "..-."),
    ('G', "--."),
    ('H', "...."),
    ('I', ".."),
    ('J', ".---"),
    ('K', "-.-"),
    ('L', ".-.."),
    ('M', "--"),
    ('N', "-."),
    ('O', "---"),
    ('P', ".--."),
    ('Q', "--.-"),
    ('R', ".-."),
    ('S', "..."),
    ('T', "-"),
    ('U', "..-"),
    ('V', "...-"),
    ('W', ".--"),
    ('X', "-..-"),
    ('Y', "-.--"),
    ('Z', "--.."),
    ('0', "-----"),
    ('1', ".----"),
    ('2', "..---"),
    ('3', "...--"),
    ('4', "....-"),
    ('5', "....."),
    ('6', "-...."),
    ('7', "--..."),
    ('8', "---.."),
    ('9', "----."),
];

#[test]
fn the_international_table() {
    for (i, (c, code)) in INTERNATIONAL.iter().enumerate() {
        assert_eq!(symbol(i as u8), *c);
        assert_eq!(code_of(MorseLang::International, *c), *code);
        assert_eq!(decode_token(MorseLang::International, code), Some(*c));
    }
}

#[test]
fn the_american_table_differs_in_c() {
    for (c, code) in INTERNATIONAL.iter() {
        if *c == 'C' {
            assert_eq!(code_of(MorseLang::American, *c), ".. .");
        } else {
            assert_eq!(code_of(MorseLang::American, *c), *code);
            assert_eq!(decode_token(MorseLang::American, code), Some(*c));
        }
    }
    assert_eq!(decode_token(MorseLang::American, "-.-."), None);
    assert_eq!(decode_token(MorseLang::American, ".. ."), Some('C'));
}

#[test]
fn characters_without_a_code_have_an_empty_code() {
    for c in ['a', 'z', ' ', '!', '/', '\u{e9}'] {
        assert_eq!(code_of(MorseLang::International, c), "");
        assert_eq!(code_of(MorseLang::American, c), "");
    }
}

#[test]
fn tokens_that_are_no_code_mean_nothing() {
    assert_eq!(decode_token(MorseLang::International, ""), None);
    assert_eq!(decode_token(MorseLang::International, "......"), None);
    assert_eq!(decode_token(MorseLang::International, "abc"), None);
    assert_eq!(decode_token(MorseLang::International, "/"), Some(' '));
    assert_eq!(decode_token(MorseLang::American, "/"), Some(' '));
    assert_eq!(decode_token(MorseLang::International, "//"), None);
}

#[test]
fn encode_sos() {
    let morse = Morse::new();
    assert_eq!(morse.encode("SOS"), "... --- ...");
}

#[test]
fn encode_words() {
    let morse = Morse::new();
    assert_eq!(morse.encode("HI"), ".... ..");
    assert_eq!(morse.encode("HI THERE"), ".... .. / - .... . .-. .");
    assert_eq!(morse.encode("hi there"), ".... .. / - .... . .-. .");
    assert_eq!(morse.encode("R2D2"), ".-. ..--- -.. ..---");
}

#[test]
fn encode_leaves_out_what_has_no_code() {
    let morse = Morse::new();
    assert_eq!(morse.encode("H-I!"), ".... ..");
    assert_eq!(morse.encode("!?"), "");
    assert_eq!(morse.encode(""), "");
    assert_eq!(morse.encode("\u{e9}a\tb"), ".- -...");
    assert_eq!(morse.encode(" "), "/");
    assert_eq!(morse.encode("  "), "/ /");
    assert_eq!(morse.encode("a  b"), ".- / / -...");
    assert_eq!(morse.encode("!a"), ".-");
}

#[test]
fn decode_words() {
    let morse = Morse::new();
    assert_eq!(morse.decode(".... .."), "HI");
    assert_eq!(morse.decode(".... .. / .-- --- .-. .-.. -.."), "HI WORLD");
    assert_eq!(morse.decode("... --- ..."), "SOS");
    assert_eq!(morse.decode("  ...   ---\t...\n"), "SOS");
}

#[test]
fn decode_leaves_out_what_is_no_code() {
    let morse = Morse::new();
    assert_eq!(morse.decode(".... ........ .."), "HI");
    assert_eq!(morse.decode("hello"), "");
    assert_eq!(morse.decode(""), "");
    assert_eq!(morse.decode("/"), " ");
    assert_eq!(morse.decode("/ /"), "  ");
}

#[test]
fn decode_undoes_encode_for_international_words() {
    let morse = Morse::new();
    for text in ["HELLO WORLD", "THE QUICK BROWN FOX 0123456789", "A", "", "X Y Z"] {
        assert_eq!(morse.decode(&morse.encode(text)), text);
    }
    assert_eq!(morse.decode(&morse.encode("mixed Case 42")), "MIXED CASE 42");
}

#[test]
fn american_c_holds_a_pause() {
    let morse = Morse::from_lang("american");
    assert_eq!(morse.encode("C"), ".. .");
    assert_eq!(morse.encode("ACE"), ".- .. . .");
    assert_eq!(morse.decode(".. ."), "IE");
    assert_eq!(morse.decode("-.-."), "");
    assert_eq!(morse.encode("SOS"), "... --- ...");
}

#[test]
fn language_names() {
    assert_eq!(Morse::new().get_lang(), "International");
    assert_eq!(Morse::from_lang("american").get_lang(), "American");
    assert_eq!(Morse::from_lang("AMERICAN").get_lang(), "American");
    assert_eq!(Morse::from_lang("American").get_lang(), "American");
    assert_eq!(Morse::from_lang("international").get_lang(), "International");
    assert_eq!(Morse::from_lang("").get_lang(), "International");
    assert_eq!(Morse::from_lang("american ").get_lang(), "International");
    assert_eq!(Morse::from_lang("klingon").get_lang(), "International");
}

#[test]
fn set_lang_switches_the_table() {
    let mut morse = Morse::new();
    assert_eq!(morse.encode("C"), "-.-.");
    morse.set_lang("AmErIcAn");
    assert_eq!(morse.get_lang(), "American");
    assert_eq!(morse.encode("C"), ".. .");
    morse.set_lang("anything else");
    assert_eq!(morse.get_lang(), "International");
    assert_eq!(morse.encode("C"), "-.-.");
}

#[test]
fn lang_of_name_reads_lower_case_only() {
    assert_eq!(lang_of_name("american"), MorseLang::American);
    assert_eq!(lang_of_name("American"), MorseLang::International);
    assert_eq!(lang_of_name("international"), MorseLang::International);
    assert_eq!(lang_of_name(""), MorseLang::International);
}

#[test]
fn unsupported_chars_are_those_that_encode_leaves_out() {
    let morse = Morse::new();
    assert_eq!(morse.unsupported_chars("H-I! there?"), vec!['-', '!', '?']);
    assert!(morse.unsupported_chars("HI THERE 42").is_empty());
    assert!(morse.unsupported_chars("").is_empty());
    assert_eq!(morse.unsupported_chars("a\tb\u{e9}"), vec!['\t', '\u{e9}']);
}

#[test]
fn unsupported_codes_are_those_that_decode_leaves_out() {
    let morse = Morse::new();
    assert_eq!(morse.unsupported_codes(".... ........ .. abc"), vec!["........", "abc"]);
    assert!(morse.unsupported_codes(".... .. / .--").is_empty());
    assert!(morse.unsupported_codes("").is_empty());
    let american = Morse::from_lang("american");
    assert_eq!(american.unsupported_codes("-.-. .-"), vec!["-.-."]);
    assert!(morse.unsupported_codes("-.-. .-").is_empty());
}

use trust_ledger::auth::{is_valid_email, EMAIL_PATTERN};

const SAMPLES: [&str; 44] = [
    "a@b.co",
    "demo@trustos.app",
    "first.last+tag@sub.example.org",
    "UPPER_case%x-y@Example-Host.COM",
    "a@b.c",
    "a@.co",
    "@b.co",
    "a@b.co ",
    " a@b.co",
    "a@b.co\n",
    "a@b..co",
    "a@b.c0",
    "a@b.co.u",
    "a@b.co.uk",
    "a@@b.co",
    "a@b@c.co",
    "a b@c.co",
    "a@b c.co",
    "a@b.c o",
    "ab.co",
    "a@bco",
    "",
    "@",
    ".",
    "@.",
    "a@b.",
    "a@b.co.",
    "a@-.co",
    "a@b-.co",
    "a@b.-co",
    "a@b_c.co",
    "a!b@c.co",
    "é@b.co",
    "a@é.co",
    "a@b.cé",
    "a@b.coé",
    "....@....aa",
    "%@-.zz",
    "a@b.c.d.e.ff",
    "a@1.2.3.4",
    "a@1.2.3.ab",
    "a.@b.co",
    ".a@b.co",
    "a@b.CoM",
];

#[test]
fn the_pattern_is_the_usual_one() {
    assert_eq!(EMAIL_PATTERN, r"^[a-zA-Z0-9._%+-]+@[a-zA-Z0-9.-]+\.[a-zA-Z]{2,}$");
}

#[test]
fn addresses_with_the_shape_are_valid() {
    assert!(is_valid_email("demo@trustos.app"));
    assert!(is_valid_email("a@b.co"));
    assert!(is_valid_email("first.last+tag@sub.example.org"));
    assert!(is_valid_email("a@b.co.uk"));
    assert!(is_valid_email("....@....aa"));
}

#[test]
fn addresses_without_the_shape_are_not() {
    assert!(!is_valid_email(""));
    assert!(!is_valid_email("ab.co"));
    assert!(!is_valid_email("a@bco"));
    assert!(!is_valid_email("@b.co"));
    assert!(!is_valid_email("a@.co"));
    assert!(!is_valid_email("a@b.c"));
    assert!(!is_valid_email("a@b.c0"));
    assert!(!is_valid_email("a@@b.co"));
    assert!(!is_valid_email("a@b.co "));
    assert!(!is_valid_email("a@b.co\n"));
    assert!(!is_valid_email("é@b.co"));
}

#[test]
fn validity_agrees_with_the_pattern() {
    let pattern = regex::Regex::new(EMAIL_PATTERN).unwrap();
    for sample in SAMPLES {
        assert_eq!(is_valid_email(sample), pattern.is_match(sample), "{:?}", sample);
    }
}

#[test]
fn validity_agrees_with_the_pattern_on_short_texts() {
    let pattern = regex::Regex::new(EMAIL_PATTERN).unwrap();
    let alphabet = ['a', 'Z', '7', '@', '.', '-', '_', ' ', 'é'];
    let mut texts: Vec<String> = vec![String::new()];
    let mut from = 0;
    for _ in 0..5 {
        let upto = texts.len();
        for i in from..upto {
            for c in alphabet {
                let mut longer = texts[i].clone();
                longer.push(c);
                texts.push(longer);
            }
        }
        from = upto;
    }
    for text in &texts {
        assert_eq!(is_valid_email(text), pattern.is_match(text), "{:?}", text);
    }
    let mut valid = 0;
    for text in &texts {
        let mut longer = text.clone();
        longer.push_str("@b.co");
        assert_eq!(is_valid_email(&longer), pattern.is_match(&longer), "{:?}", longer);
        let mut address = String::from("a@");
        address.push_str(text);
        assert_eq!(is_valid_email(&address), pattern.is_match(&address), "{:?}", address);
        if is_valid_email(&address) {
            valid += 1;
        }
    }
    assert!(valid > 0);
}

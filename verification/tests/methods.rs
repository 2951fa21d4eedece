use sundascript::methods::{lookup_method, Method, Receiver};
use sundascript::natives::{
    list_slice_range,
    integer_binary, IntegerOp,
    integer_abs, integer_clamp, integer_to_string, string_char_at, string_contains, string_index_of,
    string_length, string_lowercase, string_replace, string_reverse, string_slice, string_split,
    string_to_integer, string_trim, string_uppercase,
};

#[test]
fn integer_methods() {
    assert_eq!(integer_abs(-7), 7);
    assert_eq!(integer_abs(7), 7);
    assert_eq!(integer_abs(i64::MIN + 1), i64::MAX);
    assert_eq!(integer_clamp(15, 0, 10), Ok(10));
    assert_eq!(integer_clamp(-3, 0, 10), Ok(0));
    assert_eq!(integer_clamp(4, 0, 10), Ok(4));
    assert_eq!(
        integer_clamp(4, 10, 0),
        Err("Argumen 'min' teu kenging langkung ti 'max'.".to_string())
    );
}

#[test]
fn integer_text() {
    assert_eq!(integer_to_string(0), "0");
    assert_eq!(integer_to_string(1203), "1203");
    assert_eq!(integer_to_string(-45), "-45");
    assert_eq!(integer_to_string(i64::MIN), "-9223372036854775808");
    assert_eq!(integer_to_string(i64::MAX), "9223372036854775807");
}

#[test]
fn text_search() {
    assert!(string_contains("sawala", "wal"));
    assert!(!string_contains("sawala", "lab"));
    assert!(string_contains("abc", ""));
    assert_eq!(string_index_of("bandung", "dung"), 3);
    assert_eq!(string_index_of("bandung", "x"), -1);
    assert_eq!(string_index_of("ééab", "ab"), 2);
    assert_eq!(string_index_of("abc", ""), 0);
}

#[test]
fn text_characters() {
    assert_eq!(string_char_at("cai", 1), Ok("a".to_string()));
    assert_eq!(string_char_at("cai", -1), Err("Indeks 'hurup_ka' teu kenging negatif.".to_string()));
    assert_eq!(string_char_at("cai", 3), Err("Indeks 'hurup_ka' di luar wates teks.".to_string()));
    assert_eq!(string_reverse("abé"), "éba");
    assert_eq!(string_reverse(""), "");
}

#[test]
fn text_slices() {
    assert_eq!(string_slice("bandung", 1, 4), Ok("and".to_string()));
    assert_eq!(string_slice("bandung", 0, 0), Ok(String::new()));
    let refused = Err("Indeks 'potong' teu sah atanapi di luar wates teks.".to_string());
    assert_eq!(string_slice("bandung", 4, 1), refused);
    assert_eq!(string_slice("bandung", -1, 2), refused);
    assert_eq!(string_slice("bandung", 0, 8), refused);
}

#[test]
fn text_replace_matches_std() {
    for (s, from, to) in [
        ("aaa", "aa", "b"),
        ("hello world", "o", "0"),
        ("abc", "", "-"),
        ("", "", "x"),
        ("abc", "zz", "q"),
    ] {
        assert_eq!(string_replace(s, from, to), s.replace(from, to));
    }
}

#[test]
fn text_split_matches_std() {
    for (s, d) in [("a,b,,c,", ","), ("aaa", "aa"), ("abc", ""), ("", ""), ("", ","), ("x", "xyz")] {
        let expected: Vec<String> = s.split(d).map(|p| p.to_string()).collect();
        assert_eq!(string_split(s, d), expected);
    }
}

#[test]
fn text_trim_and_numbers() {
    assert_eq!(string_trim("  \t halo \n"), "halo");
    assert_eq!(string_trim("   "), "");
    assert_eq!(string_to_integer(" 42 "), Ok(42));
    assert_eq!(string_to_integer("+7"), Ok(7));
    assert_eq!(string_to_integer("-9223372036854775808"), Ok(i64::MIN));
    assert_eq!(
        string_to_integer("9223372036854775808"),
        Err("Gagal ngarobih teks '9223372036854775808' janten angka buleud.".to_string())
    );
    assert_eq!(string_to_integer("-"), Err("Gagal ngarobih teks '-' janten angka buleud.".to_string()));
    assert_eq!(string_to_integer("1a"), Err("Gagal ngarobih teks '1a' janten angka buleud.".to_string()));
    assert_eq!(string_to_integer(""), Err("Gagal ngarobih teks '' janten angka buleud.".to_string()));
}

#[test]
fn method_names() {
    assert_eq!(lookup_method(Receiver::Integer, "mutlak"), Some(Method::IntegerAbs));
    assert_eq!(lookup_method(Receiver::Float, "mutlak"), Some(Method::FloatAbs));
    assert_eq!(lookup_method(Receiver::Text, "panjang"), Some(Method::StringLength));
    assert_eq!(lookup_method(Receiver::Array, "panjang"), Some(Method::ArrayLength));
    assert_eq!(lookup_method(Receiver::Object, "konci"), Some(Method::ObjectKeys));
    assert_eq!(lookup_method(Receiver::Object, "panjang"), None);
    assert_eq!(lookup_method(Receiver::Integer, "buleudkeun"), None);
}

#[test]
fn integer_text_reads_back() {
    for v in [0i64, 7, -7, 10, -100, 123456789, i64::MAX, i64::MIN] {
        assert_eq!(string_to_integer(&integer_to_string(v)), Ok(v));
    }
}

#[test]
fn split_pieces_join_back() {
    for (s, d) in [("a,b,,c,", ","), ("aaa", "aa"), ("abc", ""), ("", ""), ("tanpa", ";")] {
        assert_eq!(string_split(s, d).join(d), s);
    }
}

#[test]
fn index_of_agrees_with_contains() {
    for (s, n) in [("sawala", "wal"), ("sawala", "law"), ("", ""), ("abc", "abcd")] {
        assert_eq!(string_index_of(s, n) >= 0, string_contains(s, n));
    }
}

#[test]
fn integer_arithmetic() {
    assert_eq!(integer_binary(IntegerOp::Add, 2, 3), Ok(5));
    assert_eq!(integer_binary(IntegerOp::Subtract, 2, 3), Ok(-1));
    assert_eq!(integer_binary(IntegerOp::Multiply, -4, 3), Ok(-12));
    assert_eq!(integer_binary(IntegerOp::Divide, -7, 2), Ok(-3));
    assert_eq!(integer_binary(IntegerOp::Divide, 7, -2), Ok(-3));
    assert_eq!(integer_binary(IntegerOp::Modulo, -7, 2), Ok(-1));
    assert_eq!(integer_binary(IntegerOp::Modulo, 7, -2), Ok(1));
    assert_eq!(integer_binary(IntegerOp::Divide, i64::MIN, 2), Ok(i64::MIN / 2));
    assert_eq!(integer_binary(IntegerOp::Divide, 1, 0), Err("Teu tiasa ngabagi ku enol.".to_string()));
    assert_eq!(
        integer_binary(IntegerOp::Modulo, 1, 0),
        Err("Teu tiasa ngitung sesa ngabagi ku enol.".to_string())
    );
}

#[test]
fn text_length_and_case() {
    assert_eq!(string_length("héé"), 3);
    assert_eq!(string_length(""), 0);
    assert_eq!(string_uppercase("Sunda ß"), "SUNDA SS");
    assert_eq!(string_lowercase("ΟΔΟΣ"), "ΟΔΟΣ".to_lowercase());
}

#[test]
fn list_slice_ranges_in_order_of_checks() {
    assert_eq!(list_slice_range(Some(1), Some(3), 5), Ok((1, 3)));
    assert_eq!(list_slice_range(None, None, 5), Err("Argumen 'awal' kedah mangrupa angka buleud.".to_string()));
    assert_eq!(list_slice_range(Some(-1), None, 5), Err("Indeks awal teu kenging negatif.".to_string()));
    assert_eq!(list_slice_range(Some(0), None, 5), Err("Argumen 'akhir' kedah mangrupa angka buleud.".to_string()));
    assert_eq!(list_slice_range(Some(0), Some(-2), 5), Err("Indeks akhir teu kenging negatif.".to_string()));
    assert_eq!(
        list_slice_range(Some(4), Some(2), 5),
        Err("Indeks 'potong' teu sah atanapi di luar wates daptar.".to_string())
    );
    assert_eq!(
        list_slice_range(Some(0), Some(6), 5),
        Err("Indeks 'potong' teu sah atanapi di luar wates daptar.".to_string())
    );
}

use vstd::prelude::*;

use crate::natives::chars_of;

verus! {

/// The kinds of values that have methods.
#[derive(Debug, Clone, Copy, PartialEq, Eq)]
pub enum Receiver {
    Integer,
    Float,
    Text,
    Array,
    Object,
}

/// The built-in methods of the language, one for each receiver kind and name.
#[derive(Debug, Clone, Copy, PartialEq, Eq)]
pub enum Method {
    IntegerToFloat,
    IntegerToString,
    IntegerAbs,
    IntegerClamp,
    FloatRound,
    FloatToString,
    FloatFloor,
    FloatCeil,
    FloatAbs,
    FloatClamp,
    StringUppercase,
    StringLowercase,
    StringReverse,
    StringReplace,
    StringCharAt,
    StringToInteger,
    StringToFloat,
    StringContains,
    StringLength,
    StringSplit,
    StringIndexOf,
    StringSlice,
    StringTrim,
    ArrayReverse,
    ArrayShift,
    ArrayPop,
    ArrayJoin,
    ArrayFind,
    ArrayLength,
    ArrayMap,
    ArrayIndexOf,
    ArraySlice,
    ArrayFilter,
    ArraySort,
    ArrayUnshift,
    ArrayPush,
    ArrayForeach,
    ObjectValues,
    ObjectSize,
    ObjectKeys,
    ObjectHas,
    ObjectRemove,
}

/// The method that a receiver of kind `kind` has under the name `name`.
pub open spec fn method_table(kind: Receiver, name: Seq<char>) -> Option<Method> {
    match kind {
        Receiver::Integer => if name == "janten_desimal"@ {
            Some(Method::IntegerToFloat)
        } else if name == "janten_teks"@ {
            Some(Method::IntegerToString)
        } else if name == "mutlak"@ {
            Some(Method::IntegerAbs)
        } else if name == "watesan"@ {
            Some(Method::IntegerClamp)
        } else {
            None
        },
        Receiver::Float => if name == "buleudkeun"@ {
            Some(Method::FloatRound)
        } else if name == "janten_teks"@ {
            Some(Method::FloatToString)
        } else if name == "ka_handap"@ {
            Some(Method::FloatFloor)
        } else if name == "ka_luhur"@ {
            Some(Method::FloatCeil)
        } else if name == "mutlak"@ {
            Some(Method::FloatAbs)
        } else if name == "watesan"@ {
            Some(Method::FloatClamp)
        } else {
            None
        },
        Receiver::Text => if name == "aksara_ageung"@ {
            Some(Method::StringUppercase)
        } else if name == "aksara_alit"@ {
            Some(Method::StringLowercase)
        } else if name == "balikkeun"@ {
            Some(Method::StringReverse)
        } else if name == "gentos"@ {
            Some(Method::StringReplace)
        } else if name == "hurup_ka"@ {
            Some(Method::StringCharAt)
        } else if name == "janten_angka"@ {
            Some(Method::StringToInteger)
        } else if name == "janten_desimal"@ {
            Some(Method::StringToFloat)
        } else if name == "ngandung"@ {
            Some(Method::StringContains)
        } else if name == "panjang"@ {
            Some(Method::StringLength)
        } else if name == "pisahkeun"@ {
            Some(Method::StringSplit)
        } else if name == "posisi_ka"@ {
            Some(Method::StringIndexOf)
        } else if name == "potong"@ {
            Some(Method::StringSlice)
        } else if name == "rapikeun"@ {
            Some(Method::StringTrim)
        } else {
            None
        },
        Receiver::Array => if name == "balikkeun"@ {
            Some(Method::ArrayReverse)
        } else if name == "candak_payun"@ {
            Some(Method::ArrayShift)
        } else if name == "candak_pengker"@ {
            Some(Method::ArrayPop)
        } else if name == "gabungkeun"@ {
            Some(Method::ArrayJoin)
        } else if name == "milari"@ {
            Some(Method::ArrayFind)
        } else if name == "panjang"@ {
            Some(Method::ArrayLength)
        } else if name == "petakeun"@ {
            Some(Method::ArrayMap)
        } else if name == "posisi_ka"@ {
            Some(Method::ArrayIndexOf)
        } else if name == "potong"@ {
            Some(Method::ArraySlice)
        } else if name == "saring"@ {
            Some(Method::ArrayFilter)
        } else if name == "susun"@ {
            Some(Method::ArraySort)
        } else if name == "tambih_payun"@ {
            Some(Method::ArrayUnshift)
        } else if name == "tambih_pengker"@ {
            Some(Method::ArrayPush)
        } else if name == "unggal"@ {
            Some(Method::ArrayForeach)
        } else {
            None
        },
        Receiver::Object => if name == "eusi"@ {
            Some(Method::ObjectValues)
        } else if name == "jumlah"@ {
            Some(Method::ObjectSize)
        } else if name == "konci"@ {
            Some(Method::ObjectKeys)
        } else if name == "ngagaduhan"@ {
            Some(Method::ObjectHas)
        } else if name == "piceun"@ {
            Some(Method::ObjectRemove)
        } else {
            None
        },
    }
}

/// Whether `name` holds the characters of `word`.
fn is_word(name: &Vec<char>, word: &str) -> (r: bool)
    ensures
        r == (name@ == word@),
{
    let n = word.unicode_len();
    if name.len() != n {
        return false;
    }
    let mut i: usize = 0;
    while i < n
        invariant
            name@.len() == n == word@.len(),
            0 <= i <= n,
            forall|k: int| 0 <= k < i ==> name@[k] == word@[k],
        decreases n - i,
    {
        if name[i] != word.get_char(i) {
            return false;
        }
        i += 1;
    }
    assert(name@ =~= word@);
    true
}

/// The method that a receiver of kind `kind` has under the name `name`, if any.
pub fn lookup_method(kind: Receiver, name: &str) -> (r: Option<Method>)
    ensures
        r == method_table(kind, name@),
{
    let n = chars_of(name);
    match kind {
        Receiver::Integer => {
            if is_word(&n, "janten_desimal") {
                return Some(Method::IntegerToFloat);
            }
            if is_word(&n, "janten_teks") {
                return Some(Method::IntegerToString);
            }
            if is_word(&n, "mutlak") {
                return Some(Method::IntegerAbs);
            }
            if is_word(&n, "watesan") {
                return Some(Method::IntegerClamp);
            }
            None
        },
        Receiver::Float => {
            if is_word(&n, "buleudkeun") {
                return Some(Method::FloatRound);
            }
            if is_word(&n, "janten_teks") {
                return Some(Method::FloatToString);
            }
            if is_word(&n, "ka_handap") {
                return Some(Method::FloatFloor);
            }
            if is_word(&n, "ka_luhur") {
                return Some(Method::FloatCeil);
            }
            if is_word(&n, "mutlak") {
                return Some(Method::FloatAbs);
            }
            if is_word(&n, "watesan") {
                return Some(Method::FloatClamp);
            }
            None
        },
        Receiver::Text => {
            if is_word(&n, "aksara_ageung") {
                return Some(Method::StringUppercase);
            }
            if is_word(&n, "aksara_alit") {
                return Some(Method::StringLowercase);
            }
            if is_word(&n, "balikkeun") {
                return Some(Method::StringReverse);
            }
            if is_word(&n, "gentos") {
                return Some(Method::StringReplace);
            }
            if is_word(&n, "hurup_ka") {
                return Some(Method::StringCharAt);
            }
            if is_word(&n, "janten_angka") {
                return Some(Method::StringToInteger);
            }
            if is_word(&n, "janten_desimal") {
                return Some(Method::StringToFloat);
            }
            if is_word(&n, "ngandung") {
                return Some(Method::StringContains);
            }
            if is_word(&n, "panjang") {
                return Some(Method::StringLength);
            }
            if is_word(&n, "pisahkeun") {
                return Some(Method::StringSplit);
            }
            if is_word(&n, "posisi_ka") {
                return Some(Method::StringIndexOf);
            }
            if is_word(&n, "potong") {
                return Some(Method::StringSlice);
            }
            if is_word(&n, "rapikeun") {
                return Some(Method::StringTrim);
            }
            None
        },
        Receiver::Array => {
            if is_word(&n, "balikkeun") {
                return Some(Method::ArrayReverse);
            }
            if is_word(&n, "candak_payun") {
                return Some(Method::ArrayShift);
            }
            if is_word(&n, "candak_pengker") {
                return Some(Method::ArrayPop);
            }
            if is_word(&n, "gabungkeun") {
                return Some(Method::ArrayJoin);
            }
            if is_word(&n, "milari") {
                return Some(Method::ArrayFind);
            }
            if is_word(&n, "panjang") {
                return Some(Method::ArrayLength);
            }
            if is_word(&n, "petakeun") {
                return Some(Method::ArrayMap);
            }
            if is_word(&n, "posisi_ka") {
                return Some(Method::ArrayIndexOf);
            }
            if is_word(&n, "potong") {
                return Some(Method::ArraySlice);
            }
            if is_word(&n, "saring") {
                return Some(Method::ArrayFilter);
            }
            if is_word(&n, "susun") {
                return Some(Method::ArraySort);
            }
            if is_word(&n, "tambih_payun") {
                return Some(Method::ArrayUnshift);
            }
            if is_word(&n, "tambih_pengker") {
                return Some(Method::ArrayPush);
            }
            if is_word(&n, "unggal") {
                return Some(Method::ArrayForeach);
            }
            None
        },
        Receiver::Object => {
            if is_word(&n, "eusi") {
                return Some(Method::ObjectValues);
            }
            if is_word(&n, "jumlah") {
                return Some(Method::ObjectSize);
            }
            if is_word(&n, "konci") {
                return Some(Method::ObjectKeys);
            }
            if is_word(&n, "ngagaduhan") {
                return Some(Method::ObjectHas);
            }
            if is_word(&n, "piceun") {
                return Some(Method::ObjectRemove);
            }
            None
        },
    }
}

} // verus!

verus! {

/// The name under which a method is called in a script.
pub open spec fn method_name(m: Method) -> Seq<char> {
    match m {
        Method::IntegerToFloat => "janten_desimal"@,
        Method::IntegerToString => "janten_teks"@,
        Method::IntegerAbs => "mutlak"@,
        Method::IntegerClamp => "watesan"@,
        Method::FloatRound => "buleudkeun"@,
        Method::FloatToString => "janten_teks"@,
        Method::FloatFloor => "ka_handap"@,
        Method::FloatCeil => "ka_luhur"@,
        Method::FloatAbs => "mutlak"@,
        Method::FloatClamp => "watesan"@,
        Method::StringUppercase => "aksara_ageung"@,
        Method::StringLowercase => "aksara_alit"@,
        Method::StringReverse => "balikkeun"@,
        Method::StringReplace => "gentos"@,
        Method::StringCharAt => "hurup_ka"@,
        Method::StringToInteger => "janten_angka"@,
        Method::StringToFloat => "janten_desimal"@,
        Method::StringContains => "ngandung"@,
        Method::StringLength => "panjang"@,
        Method::StringSplit => "pisahkeun"@,
        Method::StringIndexOf => "posisi_ka"@,
        Method::StringSlice => "potong"@,
        Method::StringTrim => "rapikeun"@,
        Method::ArrayReverse => "balikkeun"@,
        Method::ArrayShift => "candak_payun"@,
        Method::ArrayPop => "candak_pengker"@,
        Method::ArrayJoin => "gabungkeun"@,
        Method::ArrayFind => "milari"@,
        Method::ArrayLength => "panjang"@,
        Method::ArrayMap => "petakeun"@,
        Method::ArrayIndexOf => "posisi_ka"@,
        Method::ArraySlice => "potong"@,
        Method::ArrayFilter => "saring"@,
        Method::ArraySort => "susun"@,
        Method::ArrayUnshift => "tambih_payun"@,
        Method::ArrayPush => "tambih_pengker"@,
        Method::ArrayForeach => "unggal"@,
        Method::ObjectValues => "eusi"@,
        Method::ObjectSize => "jumlah"@,
        Method::ObjectKeys => "konci"@,
        Method::ObjectHas => "ngagaduhan"@,
        Method::ObjectRemove => "piceun"@,
    }
}

/// The kind of value a method belongs to.
pub open spec fn method_receiver(m: Method) -> Receiver {
    match m {
        Method::IntegerToFloat => Receiver::Integer,
        Method::IntegerToString => Receiver::Integer,
        Method::IntegerAbs => Receiver::Integer,
        Method::IntegerClamp => Receiver::Integer,
        Method::FloatRound => Receiver::Float,
        Method::FloatToString => Receiver::Float,
        Method::FloatFloor => Receiver::Float,
        Method::FloatCeil => Receiver::Float,
        Method::FloatAbs => Receiver::Float,
        Method::FloatClamp => Receiver::Float,
        Method::StringUppercase => Receiver::Text,
        Method::StringLowercase => Receiver::Text,
        Method::StringReverse => Receiver::Text,
        Method::StringReplace => Receiver::Text,
        Method::StringCharAt => Receiver::Text,
        Method::StringToInteger => Receiver::Text,
        Method::StringToFloat => Receiver::Text,
        Method::StringContains => Receiver::Text,
        Method::StringLength => Receiver::Text,
        Method::StringSplit => Receiver::Text,
        Method::StringIndexOf => Receiver::Text,
        Method::StringSlice => Receiver::Text,
        Method::StringTrim => Receiver::Text,
        Method::ArrayReverse => Receiver::Array,
        Method::ArrayShift => Receiver::Array,
        Method::ArrayPop => Receiver::Array,
        Method::ArrayJoin => Receiver::Array,
        Method::ArrayFind => Receiver::Array,
        Method::ArrayLength => Receiver::Array,
        Method::ArrayMap => Receiver::Array,
        Method::ArrayIndexOf => Receiver::Array,
        Method::ArraySlice => Receiver::Array,
        Method::ArrayFilter => Receiver::Array,
        Method::ArraySort => Receiver::Array,
        Method::ArrayUnshift => Receiver::Array,
        Method::ArrayPush => Receiver::Array,
        Method::ArrayForeach => Receiver::Array,
        Method::ObjectValues => Receiver::Object,
        Method::ObjectSize => Receiver::Object,
        Method::ObjectKeys => Receiver::Object,
        Method::ObjectHas => Receiver::Object,
        Method::ObjectRemove => Receiver::Object,
    }
}

/// Every method is found under its own name, for the kind of value it belongs to.
proof fn lemma_method_found(m: Method)
    ensures
        method_table(method_receiver(m), method_name(m)) == Some(m),
{
    match m {
        Method::IntegerToFloat => {
            reveal_strlit("janten_desimal");
        },
        Method::IntegerToString => {
            reveal_strlit("janten_teks");
            reveal_strlit("janten_desimal");
            assert("janten_teks"@.len() != "janten_desimal"@.len());
        },
        Method::IntegerAbs => {
            reveal_strlit("mutlak");
            reveal_strlit("janten_desimal");
            assert("mutlak"@.len() != "janten_desimal"@.len());
            reveal_strlit("janten_teks");
            assert("mutlak"@.len() != "janten_teks"@.len());
        },
        Method::IntegerClamp => {
            reveal_strlit("watesan");
            reveal_strlit("janten_desimal");
            assert("watesan"@.len() != "janten_desimal"@.len());
            reveal_strlit("janten_teks");
            assert("watesan"@.len() != "janten_teks"@.len());
            reveal_strlit("mutlak");
            assert("watesan"@.len() != "mutlak"@.len());
        },
        Method::FloatRound => {
            reveal_strlit("buleudkeun");
        },
        Method::FloatToString => {
            reveal_strlit("janten_teks");
            reveal_strlit("buleudkeun");
            assert("janten_teks"@.len() != "buleudkeun"@.len());
        },
        Method::FloatFloor => {
            reveal_strlit("ka_handap");
            reveal_strlit("buleudkeun");
            assert("ka_handap"@.len() != "buleudkeun"@.len());
            reveal_strlit("janten_teks");
            assert("ka_handap"@.len() != "janten_teks"@.len());
        },
        Method::FloatCeil => {
            reveal_strlit("ka_luhur");
            reveal_strlit("buleudkeun");
            assert("ka_luhur"@.len() != "buleudkeun"@.len());
            reveal_strlit("janten_teks");
            assert("ka_luhur"@.len() != "janten_teks"@.len());
            reveal_strlit("ka_handap");
            assert("ka_luhur"@.len() != "ka_handap"@.len());
        },
        Method::FloatAbs => {
            reveal_strlit("mutlak");
            reveal_strlit("buleudkeun");
            assert("mutlak"@.len() != "buleudkeun"@.len());
            reveal_strlit("janten_teks");
            assert("mutlak"@.len() != "janten_teks"@.len());
            reveal_strlit("ka_handap");
            assert("mutlak"@.len() != "ka_handap"@.len());
            reveal_strlit("ka_luhur");
            assert("mutlak"@.len() != "ka_luhur"@.len());
        },
        Method::FloatClamp => {
            reveal_strlit("watesan");
            reveal_strlit("buleudkeun");
            assert("watesan"@.len() != "buleudkeun"@.len());
            reveal_strlit("janten_teks");
            assert("watesan"@.len() != "janten_teks"@.len());
            reveal_strlit("ka_handap");
            assert("watesan"@.len() != "ka_handap"@.len());
            reveal_strlit("ka_luhur");
            assert("watesan"@.len() != "ka_luhur"@.len());
            reveal_strlit("mutlak");
            assert("watesan"@.len() != "mutlak"@.len());
        },
        Method::StringUppercase => {
            reveal_strlit("aksara_ageung");
        },
        Method::StringLowercase => {
            reveal_strlit("aksara_alit");
            reveal_strlit("aksara_ageung");
            assert("aksara_alit"@.len() != "aksara_ageung"@.len());
        },
        Method::StringReverse => {
            reveal_strlit("balikkeun");
            reveal_strlit("aksara_ageung");
            assert("balikkeun"@.len() != "aksara_ageung"@.len());
            reveal_strlit("aksara_alit");
            assert("balikkeun"@.len() != "aksara_alit"@.len());
        },
        Method::StringReplace => {
            reveal_strlit("gentos");
            reveal_strlit("aksara_ageung");
            assert("gentos"@.len() != "aksara_ageung"@.len());
            reveal_strlit("aksara_alit");
            assert("gentos"@.len() != "aksara_alit"@.len());
            reveal_strlit("balikkeun");
            assert("gentos"@.len() != "balikkeun"@.len());
        },
        Method::StringCharAt => {
            reveal_strlit("hurup_ka");
            reveal_strlit("aksara_ageung");
            assert("hurup_ka"@.len() != "aksara_ageung"@.len());
            reveal_strlit("aksara_alit");
            assert("hurup_ka"@.len() != "aksara_alit"@.len());
            reveal_strlit("balikkeun");
            assert("hurup_ka"@.len() != "balikkeun"@.len());
            reveal_strlit("gentos");
            assert("hurup_ka"@.len() != "gentos"@.len());
        },
        Method::StringToInteger => {
            reveal_strlit("janten_angka");
            reveal_strlit("aksara_ageung");
            assert("janten_angka"@.len() != "aksara_ageung"@.len());
            reveal_strlit("aksara_alit");
            assert("janten_angka"@.len() != "aksara_alit"@.len());
            reveal_strlit("balikkeun");
            assert("janten_angka"@.len() != "balikkeun"@.len());
            reveal_strlit("gentos");
            assert("janten_angka"@.len() != "gentos"@.len());
            reveal_strlit("hurup_ka");
            assert("janten_angka"@.len() != "hurup_ka"@.len());
        },
        Method::StringToFloat => {
            reveal_strlit("janten_desimal");
            reveal_strlit("aksara_ageung");
            assert("janten_desimal"@.len() != "aksara_ageung"@.len());
            reveal_strlit("aksara_alit");
            assert("janten_desimal"@.len() != "aksara_alit"@.len());
            reveal_strlit("balikkeun");
            assert("janten_desimal"@.len() != "balikkeun"@.len());
            reveal_strlit("gentos");
            assert("janten_desimal"@.len() != "gentos"@.len());
            reveal_strlit("hurup_ka");
            assert("janten_desimal"@.len() != "hurup_ka"@.len());
            reveal_strlit("janten_angka");
            assert("janten_desimal"@.len() != "janten_angka"@.len());
        },
        Method::StringContains => {
            reveal_strlit("ngandung");
            reveal_strlit("aksara_ageung");
            assert("ngandung"@.len() != "aksara_ageung"@.len());
            reveal_strlit("aksara_alit");
            assert("ngandung"@.len() != "aksara_alit"@.len());
            reveal_strlit("balikkeun");
            assert("ngandung"@.len() != "balikkeun"@.len());
            reveal_strlit("gentos");
            assert("ngandung"@.len() != "gentos"@.len());
            reveal_strlit("hurup_ka");
            assert("ngandung"@[0] != "hurup_ka"@[0]);
            reveal_strlit("janten_angka");
            assert("ngandung"@.len() != "janten_angka"@.len());
            reveal_strlit("janten_desimal");
            assert("ngandung"@.len() != "janten_desimal"@.len());
        },
        Method::StringLength => {
            reveal_strlit("panjang");
            reveal_strlit("aksara_ageung");
            assert("panjang"@.len() != "aksara_ageung"@.len());
            reveal_strlit("aksara_alit");
            assert("panjang"@.len() != "aksara_alit"@.len());
            reveal_strlit("balikkeun");
            assert("panjang"@.len() != "balikkeun"@.len());
            reveal_strlit("gentos");
            assert("panjang"@.len() != "gentos"@.len());
            reveal_strlit("hurup_ka");
            assert("panjang"@.len() != "hurup_ka"@.len());
            reveal_strlit("janten_angka");
            assert("panjang"@.len() != "janten_angka"@.len());
            reveal_strlit("janten_desimal");
            assert("panjang"@.len() != "janten_desimal"@.len());
            reveal_strlit("ngandung");
            assert("panjang"@.len() != "ngandung"@.len());
        },
        Method::StringSplit => {
            reveal_strlit("pisahkeun");
            reveal_strlit("aksara_ageung");
            assert("pisahkeun"@.len() != "aksara_ageung"@.len());
            reveal_strlit("aksara_alit");
            assert("pisahkeun"@.len() != "aksara_alit"@.len());
            reveal_strlit("balikkeun");
            assert("pisahkeun"@[0] != "balikkeun"@[0]);
            reveal_strlit("gentos");
            assert("pisahkeun"@.len() != "gentos"@.len());
            reveal_strlit("hurup_ka");
            assert("pisahkeun"@.len() != "hurup_ka"@.len());
            reveal_strlit("janten_angka");
            assert("pisahkeun"@.len() != "janten_angka"@.len());
            reveal_strlit("janten_desimal");
            assert("pisahkeun"@.len() != "janten_desimal"@.len());
            reveal_strlit("ngandung");
            assert("pisahkeun"@.len() != "ngandung"@.len());
            reveal_strlit("panjang");
            assert("pisahkeun"@.len() != "panjang"@.len());
        },
        Method::StringIndexOf => {
            reveal_strlit("posisi_ka");
            reveal_strlit("aksara_ageung");
            assert("posisi_ka"@.len() != "aksara_ageung"@.len());
            reveal_strlit("aksara_alit");
            assert("posisi_ka"@.len() != "aksara_alit"@.len());
            reveal_strlit("balikkeun");
            assert("posisi_ka"@[0] != "balikkeun"@[0]);
            reveal_strlit("gentos");
            assert("posisi_ka"@.len() != "gentos"@.len());
            reveal_strlit("hurup_ka");
            assert("posisi_ka"@.len() != "hurup_ka"@.len());
            reveal_strlit("janten_angka");
            assert("posisi_ka"@.len() != "janten_angka"@.len());
            reveal_strlit("janten_desimal");
            assert("posisi_ka"@.len() != "janten_desimal"@.len());
            reveal_strlit("ngandung");
            assert("posisi_ka"@.len() != "ngandung"@.len());
            reveal_strlit("panjang");
            assert("posisi_ka"@.len() != "panjang"@.len());
            reveal_strlit("pisahkeun");
            assert("posisi_ka"@[1] != "pisahkeun"@[1]);
        },
        Method::StringSlice => {
            reveal_strlit("potong");
            reveal_strlit("aksara_ageung");
            assert("potong"@.len() != "aksara_ageung"@.len());
            reveal_strlit("aksara_alit");
            assert("potong"@.len() != "aksara_alit"@.len());
            reveal_strlit("balikkeun");
            assert("potong"@.len() != "balikkeun"@.len());
            reveal_strlit("gentos");
            assert("potong"@[0] != "gentos"@[0]);
            reveal_strlit("hurup_ka");
            assert("potong"@.len() != "hurup_ka"@.len());
            reveal_strlit("janten_angka");
            assert("potong"@.len() != "janten_angka"@.len());
            reveal_strlit("janten_desimal");
            assert("potong"@.len() != "janten_desimal"@.len());
            reveal_strlit("ngandung");
            assert("potong"@.len() != "ngandung"@.len());
            reveal_strlit("panjang");
            assert("potong"@.len() != "panjang"@.len());
            reveal_strlit("pisahkeun");
            assert("potong"@.len() != "pisahkeun"@.len());
            reveal_strlit("posisi_ka");
            assert("potong"@.len() != "posisi_ka"@.len());
        },
        Method::StringTrim => {
            reveal_strlit("rapikeun");
            reveal_strlit("aksara_ageung");
            assert("rapikeun"@.len() != "aksara_ageung"@.len());
            reveal_strlit("aksara_alit");
            assert("rapikeun"@.len() != "aksara_alit"@.len());
            reveal_strlit("balikkeun");
            assert("rapikeun"@.len() != "balikkeun"@.len());
            reveal_strlit("gentos");
            assert("rapikeun"@.len() != "gentos"@.len());
            reveal_strlit("hurup_ka");
            assert("rapikeun"@[0] != "hurup_ka"@[0]);
            reveal_strlit("janten_angka");
            assert("rapikeun"@.len() != "janten_angka"@.len());
            reveal_strlit("janten_desimal");
            assert("rapikeun"@.len() != "janten_desimal"@.len());
            reveal_strlit("ngandung");
            assert("rapikeun"@[0] != "ngandung"@[0]);
            reveal_strlit("panjang");
            assert("rapikeun"@.len() != "panjang"@.len());
            reveal_strlit("pisahkeun");
            assert("rapikeun"@.len() != "pisahkeun"@.len());
            reveal_strlit("posisi_ka");
            assert("rapikeun"@.len() != "posisi_ka"@.len());
            reveal_strlit("potong");
            assert("rapikeun"@.len() != "potong"@.len());
        },
        Method::ArrayReverse => {
            reveal_strlit("balikkeun");
        },
        Method::ArrayShift => {
            reveal_strlit("candak_payun");
            reveal_strlit("balikkeun");
            assert("candak_payun"@.len() != "balikkeun"@.len());
        },
        Method::ArrayPop => {
            reveal_strlit("candak_pengker");
            reveal_strlit("balikkeun");
            assert("candak_pengker"@.len() != "balikkeun"@.len());
            reveal_strlit("candak_payun");
            assert("candak_pengker"@.len() != "candak_payun"@.len());
        },
        Method::ArrayJoin => {
            reveal_strlit("gabungkeun");
            reveal_strlit("balikkeun");
            assert("gabungkeun"@.len() != "balikkeun"@.len());
            reveal_strlit("candak_payun");
            assert("gabungkeun"@.len() != "candak_payun"@.len());
            reveal_strlit("candak_pengker");
            assert("gabungkeun"@.len() != "candak_pengker"@.len());
        },
        Method::ArrayFind => {
            reveal_strlit("milari");
            reveal_strlit("balikkeun");
            assert("milari"@.len() != "balikkeun"@.len());
            reveal_strlit("candak_payun");
            assert("milari"@.len() != "candak_payun"@.len());
            reveal_strlit("candak_pengker");
            assert("milari"@.len() != "candak_pengker"@.len());
            reveal_strlit("gabungkeun");
            assert("milari"@.len() != "gabungkeun"@.len());
        },
        Method::ArrayLength => {
            reveal_strlit("panjang");
            reveal_strlit("balikkeun");
            assert("panjang"@.len() != "balikkeun"@.len());
            reveal_strlit("candak_payun");
            assert("panjang"@.len() != "candak_payun"@.len());
            reveal_strlit("candak_pengker");
            assert("panjang"@.len() != "candak_pengker"@.len());
            reveal_strlit("gabungkeun");
            assert("panjang"@.len() != "gabungkeun"@.len());
            reveal_strlit("milari");
            assert("panjang"@.len() != "milari"@.len());
        },
        Method::ArrayMap => {
            reveal_strlit("petakeun");
            reveal_strlit("balikkeun");
            assert("petakeun"@.len() != "balikkeun"@.len());
            reveal_strlit("candak_payun");
            assert("petakeun"@.len() != "candak_payun"@.len());
            reveal_strlit("candak_pengker");
            assert("petakeun"@.len() != "candak_pengker"@.len());
            reveal_strlit("gabungkeun");
            assert("petakeun"@.len() != "gabungkeun"@.len());
            reveal_strlit("milari");
            assert("petakeun"@.len() != "milari"@.len());
            reveal_strlit("panjang");
            assert("petakeun"@.len() != "panjang"@.len());
        },
        Method::ArrayIndexOf => {
            reveal_strlit("posisi_ka");
            reveal_strlit("balikkeun");
            assert("posisi_ka"@[0] != "balikkeun"@[0]);
            reveal_strlit("candak_payun");
            assert("posisi_ka"@.len() != "candak_payun"@.len());
            reveal_strlit("candak_pengker");
            assert("posisi_ka"@.len() != "candak_pengker"@.len());
            reveal_strlit("gabungkeun");
            assert("posisi_ka"@.len() != "gabungkeun"@.len());
            reveal_strlit("milari");
            assert("posisi_ka"@.len() != "milari"@.len());
            reveal_strlit("panjang");
            assert("posisi_ka"@.len() != "panjang"@.len());
            reveal_strlit("petakeun");
            assert("posisi_ka"@.len() != "petakeun"@.len());
        },
        Method::ArraySlice => {
            reveal_strlit("potong");
            reveal_strlit("balikkeun");
            assert("potong"@.len() != "balikkeun"@.len());
            reveal_strlit("candak_payun");
            assert("potong"@.len() != "candak_payun"@.len());
            reveal_strlit("candak_pengker");
            assert("potong"@.len() != "candak_pengker"@.len());
            reveal_strlit("gabungkeun");
            assert("potong"@.len() != "gabungkeun"@.len());
            reveal_strlit("milari");
            assert("potong"@[0] != "milari"@[0]);
            reveal_strlit("panjang");
            assert("potong"@.len() != "panjang"@.len());
            reveal_strlit("petakeun");
            assert("potong"@.len() != "petakeun"@.len());
            reveal_strlit("posisi_ka");
            assert("potong"@.len() != "posisi_ka"@.len());
        },
        Method::ArrayFilter => {
            reveal_strlit("saring");
            reveal_strlit("balikkeun");
            assert("saring"@.len() != "balikkeun"@.len());
            reveal_strlit("candak_payun");
            assert("saring"@.len() != "candak_payun"@.len());
            reveal_strlit("candak_pengker");
            assert("saring"@.len() != "candak_pengker"@.len());
            reveal_strlit("gabungkeun");
            assert("saring"@.len() != "gabungkeun"@.len());
            reveal_strlit("milari");
            assert("saring"@[0] != "milari"@[0]);
            reveal_strlit("panjang");
            assert("saring"@.len() != "panjang"@.len());
            reveal_strlit("petakeun");
            assert("saring"@.len() != "petakeun"@.len());
            reveal_strlit("posisi_ka");
            assert("saring"@.len() != "posisi_ka"@.len());
            reveal_strlit("potong");
            assert("saring"@[0] != "potong"@[0]);
        },
        Method::ArraySort => {
            reveal_strlit("susun");
            reveal_strlit("balikkeun");
            assert("susun"@.len() != "balikkeun"@.len());
            reveal_strlit("candak_payun");
            assert("susun"@.len() != "candak_payun"@.len());
            reveal_strlit("candak_pengker");
            assert("susun"@.len() != "candak_pengker"@.len());
            reveal_strlit("gabungkeun");
            assert("susun"@.len() != "gabungkeun"@.len());
            reveal_strlit("milari");
            assert("susun"@.len() != "milari"@.len());
            reveal_strlit("panjang");
            assert("susun"@.len() != "panjang"@.len());
            reveal_strlit("petakeun");
            assert("susun"@.len() != "petakeun"@.len());
            reveal_strlit("posisi_ka");
            assert("susun"@.len() != "posisi_ka"@.len());
            reveal_strlit("potong");
            assert("susun"@.len() != "potong"@.len());
            reveal_strlit("saring");
            assert("susun"@.len() != "saring"@.len());
        },
        Method::ArrayUnshift => {
            reveal_strlit("tambih_payun");
            reveal_strlit("balikkeun");
            assert("tambih_payun"@.len() != "balikkeun"@.len());
            reveal_strlit("candak_payun");
            assert("tambih_payun"@[0] != "candak_payun"@[0]);
            reveal_strlit("candak_pengker");
            assert("tambih_payun"@.len() != "candak_pengker"@.len());
            reveal_strlit("gabungkeun");
            assert("tambih_payun"@.len() != "gabungkeun"@.len());
            reveal_strlit("milari");
            assert("tambih_payun"@.len() != "milari"@.len());
            reveal_strlit("panjang");
            assert("tambih_payun"@.len() != "panjang"@.len());
            reveal_strlit("petakeun");
            assert("tambih_payun"@.len() != "petakeun"@.len());
            reveal_strlit("posisi_ka");
            assert("tambih_payun"@.len() != "posisi_ka"@.len());
            reveal_strlit("potong");
            assert("tambih_payun"@.len() != "potong"@.len());
            reveal_strlit("saring");
            assert("tambih_payun"@.len() != "saring"@.len());
            reveal_strlit("susun");
            assert("tambih_payun"@.len() != "susun"@.len());
        },
        Method::ArrayPush => {
            reveal_strlit("tambih_pengker");
            reveal_strlit("balikkeun");
            assert("tambih_pengker"@.len() != "balikkeun"@.len());
            reveal_strlit("candak_payun");
            assert("tambih_pengker"@.len() != "candak_payun"@.len());
            reveal_strlit("candak_pengker");
            assert("tambih_pengker"@[0] != "candak_pengker"@[0]);
            reveal_strlit("gabungkeun");
            assert("tambih_pengker"@.len() != "gabungkeun"@.len());
            reveal_strlit("milari");
            assert("tambih_pengker"@.len() != "milari"@.len());
            reveal_strlit("panjang");
            assert("tambih_pengker"@.len() != "panjang"@.len());
            reveal_strlit("petakeun");
            assert("tambih_pengker"@.len() != "petakeun"@.len());
            reveal_strlit("posisi_ka");
            assert("tambih_pengker"@.len() != "posisi_ka"@.len());
            reveal_strlit("potong");
            assert("tambih_pengker"@.len() != "potong"@.len());
            reveal_strlit("saring");
            assert("tambih_pengker"@.len() != "saring"@.len());
            reveal_strlit("susun");
            assert("tambih_pengker"@.len() != "susun"@.len());
            reveal_strlit("tambih_payun");
            assert("tambih_pengker"@.len() != "tambih_payun"@.len());
        },
        Method::ArrayForeach => {
            reveal_strlit("unggal");
            reveal_strlit("balikkeun");
            assert("unggal"@.len() != "balikkeun"@.len());
            reveal_strlit("candak_payun");
            assert("unggal"@.len() != "candak_payun"@.len());
            reveal_strlit("candak_pengker");
            assert("unggal"@.len() != "candak_pengker"@.len());
            reveal_strlit("gabungkeun");
            assert("unggal"@.len() != "gabungkeun"@.len());
            reveal_strlit("milari");
            assert("unggal"@[0] != "milari"@[0]);
            reveal_strlit("panjang");
            assert("unggal"@.len() != "panjang"@.len());
            reveal_strlit("petakeun");
            assert("unggal"@.len() != "petakeun"@.len());
            reveal_strlit("posisi_ka");
            assert("unggal"@.len() != "posisi_ka"@.len());
            reveal_strlit("potong");
            assert("unggal"@[0] != "potong"@[0]);
            reveal_strlit("saring");
            assert("unggal"@[0] != "saring"@[0]);
            reveal_strlit("susun");
            assert("unggal"@.len() != "susun"@.len());
            reveal_strlit("tambih_payun");
            assert("unggal"@.len() != "tambih_payun"@.len());
            reveal_strlit("tambih_pengker");
            assert("unggal"@.len() != "tambih_pengker"@.len());
        },
        Method::ObjectValues => {
            reveal_strlit("eusi");
        },
        Method::ObjectSize => {
            reveal_strlit("jumlah");
            reveal_strlit("eusi");
            assert("jumlah"@.len() != "eusi"@.len());
        },
        Method::ObjectKeys => {
            reveal_strlit("konci");
            reveal_strlit("eusi");
            assert("konci"@.len() != "eusi"@.len());
            reveal_strlit("jumlah");
            assert("konci"@.len() != "jumlah"@.len());
        },
        Method::ObjectHas => {
            reveal_strlit("ngagaduhan");
            reveal_strlit("eusi");
            assert("ngagaduhan"@.len() != "eusi"@.len());
            reveal_strlit("jumlah");
            assert("ngagaduhan"@.len() != "jumlah"@.len());
            reveal_strlit("konci");
            assert("ngagaduhan"@.len() != "konci"@.len());
        },
        Method::ObjectRemove => {
            reveal_strlit("piceun");
            reveal_strlit("eusi");
            assert("piceun"@.len() != "eusi"@.len());
            reveal_strlit("jumlah");
            assert("piceun"@[0] != "jumlah"@[0]);
            reveal_strlit("konci");
            assert("piceun"@.len() != "konci"@.len());
            reveal_strlit("ngagaduhan");
            assert("piceun"@.len() != "ngagaduhan"@.len());
        },
    }
}

/// Looking a method up finds exactly the method of that kind of value with that
/// name: whatever `lookup_method` gives back belongs to the kind asked for and
/// bears the name asked for, and every method is found under its own name.
pub proof fn lemma_methods_found_by_their_names(kind: Receiver, name: Seq<char>, m: Method)
    ensures
        method_table(kind, name) == Some(m) ==> method_receiver(m) == kind && method_name(m) == name,
        method_table(method_receiver(m), method_name(m)) == Some(m),
{
    lemma_method_found(m);
}

} // verus!

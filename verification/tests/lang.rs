use algosketch::{NaturalLang, SourceLang};

#[test]
fn natural_lang_enum_exists() {
    let zh = NaturalLang::Zh;
    let en = NaturalLang::En;
    assert_ne!(zh, en);
}

#[test]
fn from_extension_knows_every_language() {
    assert_eq!(SourceLang::from_extension("py"), Some(SourceLang::Python));
    assert_eq!(SourceLang::from_extension("java"), Some(SourceLang::Java));
    assert_eq!(SourceLang::from_extension("cpp"), Some(SourceLang::Cpp));
    assert_eq!(SourceLang::from_extension("cc"), Some(SourceLang::Cpp));
    assert_eq!(SourceLang::from_extension("cxx"), Some(SourceLang::Cpp));
    assert_eq!(SourceLang::from_extension("hpp"), Some(SourceLang::Cpp));
    assert_eq!(SourceLang::from_extension("h"), Some(SourceLang::Cpp));
    assert_eq!(SourceLang::from_extension("go"), Some(SourceLang::Go));
    assert_eq!(SourceLang::from_extension("rs"), None);
    assert_eq!(SourceLang::from_extension(""), None);
}

#[test]
fn from_extension_ignores_ascii_case() {
    assert_eq!(SourceLang::from_extension("PY"), Some(SourceLang::Python));
    assert_eq!(SourceLang::from_extension("Java"), Some(SourceLang::Java));
    assert_eq!(SourceLang::from_extension("HPP"), Some(SourceLang::Cpp));
    assert_eq!(SourceLang::from_extension("Go"), Some(SourceLang::Go));
}

#[test]
fn as_str_names_each_language() {
    assert_eq!(SourceLang::Python.as_str(), "python");
    assert_eq!(SourceLang::Java.as_str(), "java");
    assert_eq!(SourceLang::Cpp.as_str(), "cpp");
    assert_eq!(SourceLang::Go.as_str(), "go");
}

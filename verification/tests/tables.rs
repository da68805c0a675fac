use pamoxide::control::{Action, ControlParseError};
use pamoxide::error::PamConfigSyntaxError;
use pamoxide::module_arguments::ModuleArgument;
use pamoxide::parse::{LineIterator, StringTokenIterator};
use pamoxide::parsing::{
    skip_whitespace, take_all_strings, take_control_string, take_string, till_end_of_line,
    till_whitespace,
};
use pamoxide::pam_rule::{take_packed_rule, take_separated_rule, PamRule};

fn shown(rule: Result<PamRule, PamConfigSyntaxError>) -> String {
    match rule {
        Ok(rule) => {
            let arguments: Vec<String> =
                rule.module_arguments().iter().map(|argument| argument.to_string()).collect();
            format!(
                "logging={} domain={} control={} module={} arguments={}",
                rule.is_logging_enabled(),
                rule.domain().name(),
                rule.control().to_string(),
                rule.module().as_str(),
                arguments.join("|")
            )
        }
        Err(e) => format!("{:?}", e),
    }
}

#[test]
fn lines_of_many_texts() {
    let cases: Vec<(&str, Vec<String>)> = vec![
        ("\n\n \n\n\na \t", vec!["a \t".to_string()]),
        ("]ba#", vec!["]ba".to_string()]),
        ("\n\t]b ", vec!["]b ".to_string()]),
        ("a", vec!["a".to_string()]),
        ("\na ", vec!["a ".to_string()]),
        ("\n## ", vec![]),
        ("\\]\t\t\n# a]\n\n\n#", vec!["\\]\t\t".to_string()]),
        (" [ ", vec!["[ ".to_string()]),
        ("#\ta\t#a\n[#\nb\t#\\", vec!["[".to_string(), "b\t".to_string()]),
        ("ab]] ", vec!["ab]] ".to_string()]),
        ("a\t\t\n\n [a\n[", vec!["a\t\t".to_string(), "[a".to_string(), "[".to_string()]),
        ("", vec![]),
        (" \n\n", vec![]),
        ("[#a[ b\n\na]\\\n", vec!["[".to_string(), "a] ".to_string()]),
        ("] b \n\n\\\\#", vec!["] b ".to_string(), "\\\\".to_string()]),
        ("\n", vec![]),
        (" \\]", vec!["\\]".to_string()]),
        ("#  \n]a[a\\\n\t", vec!["]a[a ".to_string()]),
        ("b#\n#b\na\n   ", vec!["b".to_string(), "a".to_string()]),
        (" #]b\n", vec![]),
        ("\n#\nb]a#]\\", vec!["b]a".to_string()]),
        ("\t\n\n #[ b", vec![]),
        ("\n\n[  ##\n\t #\t\\a", vec!["[  ".to_string()]),
        ("ab\n", vec!["ab".to_string()]),
        ("] \n]\n [\\#[a]", vec!["] ".to_string(), "]".to_string(), "[\\".to_string()]),
        ("][b\\ ]aa[\na#", vec!["][b\\ ]aa[".to_string(), "a".to_string()]),
        ("\n a\t\\\n  \n#", vec!["a\t ".to_string()]),
        ("\t ]ba\n \nb[\n\\", vec!["]ba".to_string(), "b[".to_string(), "\\".to_string()]),
        ("\n\n\n  ", vec![]),
        ("#]\n\t ]\na\\\n#b\t ", vec!["]".to_string(), "a ".to_string()]),
        ("##\n\n\n \\[\\\\", vec!["\\[\\\\".to_string()]),
        ("\n\n[\t]\na\t]", vec!["[\t]".to_string(), "a\t]".to_string()]),
        ("b", vec!["b".to_string()]),
        ("a a[#\ta\n#] [\n", vec!["a a[".to_string()]),
        ("\nb ab\\ab\n  ", vec!["b ab\\ab".to_string()]),
        ("]\\\n] \tb\\\n\tb", vec!["] ] \tb b".to_string()]),
        ("#\\[[\n[\\b\\\\\n\\", vec!["[\\b\\ \\".to_string()]),
        ("b]]\\]a\n ", vec!["b]]\\]a".to_string()]),
        ("\\\n\t\n\n[[\n \t ", vec![" [[".to_string()]),
        ("\\[ \\\n# ", vec!["\\[  ".to_string()]),
        (" \\  \na\t  [a", vec!["\\  ".to_string(), "a\t  [a".to_string()]),
        ("]\t]\\a\\a\tb \n a\t", vec!["]\t]\\a\\a\tb ".to_string(), "a\t".to_string()]),
        ("\\b\n\n\t[", vec!["\\b".to_string(), "[".to_string()]),
        ("b\t   b[", vec!["b\t   b[".to_string()]),
        ("#\n\n][ #\n]b [\n", vec!["][ ".to_string(), "]b [".to_string()]),
        (" [b\t\n\n  \\\n", vec!["[b\t".to_string(), " ".to_string()]),
        ("[", vec!["[".to_string()]),
        ("\\[ \\\n  \n#  a ", vec!["\\[  ".to_string()]),
        ("[\\\n]#\n", vec!["[ ]".to_string()]),
        ("]a#[[a[", vec!["]a".to_string()]),
        ("#\ta\na##aa\\a\\", vec!["a".to_string()]),
        ("a\n ", vec!["a".to_string()]),
        ("a\t \na \\\na", vec!["a\t ".to_string(), "a  a".to_string()]),
        ("#a]\n\n#]bb #b\t\t", vec![]),
        ("#\\\\a\n\n#b", vec![]),
        ("\nb\t\t", vec!["b\t\t".to_string()]),
        ("[ab \n [ \n", vec!["[ab ".to_string(), "[ ".to_string()]),
        ("b\n#\\b", vec!["b".to_string()]),
        ("\ta##\n\\\n  a[\t", vec!["a".to_string(), " a[\t".to_string()]),
        ("[\n#\\  \nb#[[a\n", vec!["[".to_string(), "b".to_string()]),
    ];
    for case in cases {
        let (source, lines) = case;
        assert_eq!(LineIterator::new(source).collect(), lines, "source {:?}", source);
    }
}

#[test]
fn fields_of_many_lines() {
    let cases: Vec<(&str, Result<Vec<String>, PamConfigSyntaxError>)> = vec![
        ("a\\ ", Ok(vec!["a\\".to_string()])),
        ("a a\\b", Ok(vec!["a".to_string(), "a\\b".to_string()])),
        ("]]]=b\\=\t]\t\t=", Ok(vec!["]]]=b\\=".to_string(), "]".to_string(), "=".to_string()])),
        ("]]\\]", Ok(vec!["]]\\]".to_string()])),
        ("  ]]]a\t\\  \t", Ok(vec!["]]]a".to_string(), "\\".to_string()])),
        ("]a]", Ok(vec!["]a]".to_string()])),
        (" \\][]\\", Ok(vec!["\\][]\\".to_string()])),
        ("\t =[[", Ok(vec!["=[[".to_string()])),
        ("]", Ok(vec!["]".to_string()])),
        ("]b   \t ]\t\\", Ok(vec!["]b".to_string(), "]".to_string(), "\\".to_string()])),
        ("\t  [a]=] [b=\\a", Err(PamConfigSyntaxError::UnclosedBracket)),
        ("  ]\t]a\tbbb]\\b", Ok(vec!["]".to_string(), "]a".to_string(), "bbb]\\b".to_string()])),
        ("\\][b \\] ", Ok(vec!["\\][b".to_string(), "\\]".to_string()])),
        ("\t] [ba\\  ]\\\t", Ok(vec!["]".to_string(), "ba\\  ".to_string(), "\\".to_string()])),
        ("\t bb\t]a]== ab", Ok(vec!["bb".to_string(), "]a]==".to_string(), "ab".to_string()])),
        ("\\a\\ ]\t]\\] ", Ok(vec!["\\a\\".to_string(), "]".to_string(), "]\\]".to_string()])),
        ("=", Ok(vec!["=".to_string()])),
        ("b", Ok(vec!["b".to_string()])),
        (" a\\=]b]b", Ok(vec!["a\\=]b]b".to_string()])),
        ("\t", Ok(vec![])),
        ("ba=[\\ b] a\\a=\\", Ok(vec!["ba=[\\".to_string(), "b]".to_string(), "a\\a=\\".to_string()])),
        ("] b[=a  ]", Ok(vec!["]".to_string(), "b[=a".to_string(), "]".to_string()])),
        ("", Ok(vec![])),
        ("[=a =", Err(PamConfigSyntaxError::UnclosedBracket)),
        ("\\\\baa] =  a", Ok(vec!["\\\\baa]".to_string(), "=".to_string(), "a".to_string()])),
        ("] \t\t[\tb\t]", Ok(vec!["]".to_string(), "\tb\t".to_string()])),
        ("=]\t\t]a a]", Ok(vec!["=]".to_string(), "]a".to_string(), "a]".to_string()])),
        ("= \\\\ ]]\\ \\]]=", Ok(vec!["=".to_string(), "\\\\".to_string(), "]]\\".to_string(), "\\]]=".to_string()])),
        ("b[b]=b] b \\\\\t ", Ok(vec!["b[b]=b]".to_string(), "b".to_string(), "\\\\".to_string()])),
        ("ba ]", Ok(vec!["ba".to_string(), "]".to_string()])),
        ("=a ]", Ok(vec!["=a".to_string(), "]".to_string()])),
        (" ][ \\b\t==\t]", Ok(vec!["][".to_string(), "\\b".to_string(), "==".to_string(), "]".to_string()])),
        ("[==  =] =][\\\\", Ok(vec!["==  =".to_string(), "=][\\\\".to_string()])),
        ("[]\\ a ]b\t \\]]", Ok(vec!["".to_string(), "\\".to_string(), "a".to_string(), "]b".to_string(), "\\]]".to_string()])),
        ("\\a    \t\\\\ a[]\\", Ok(vec!["\\a".to_string(), "\\\\".to_string(), "a[]\\".to_string()])),
        ("\\  ]=a  b\ta]", Ok(vec!["\\".to_string(), "]=a".to_string(), "b".to_string(), "a]".to_string()])),
        ("b\t= a= ]ab[", Ok(vec!["b".to_string(), "=".to_string(), "a=".to_string(), "]ab[".to_string()])),
        ("] ] =b]\\", Ok(vec!["]".to_string(), "]".to_string(), "=b]\\".to_string()])),
        ("]]\\b\t ", Ok(vec!["]]\\b".to_string()])),
        ("[ []]=]ba\\]]", Ok(vec![" [".to_string(), "]=]ba\\]]".to_string()])),
        ("a]b]\\", Ok(vec!["a]b]\\".to_string()])),
        ("\\\\b a\\", Ok(vec!["\\\\b".to_string(), "a\\".to_string()])),
        ("[ \ta\\[\\[ ]]\\\\ ", Ok(vec![" \ta\\[\\[ ".to_string(), "]\\\\".to_string()])),
        ("[\\\t\tb]\\", Ok(vec!["\\\t\tb".to_string(), "\\".to_string()])),
        ("aa", Ok(vec!["aa".to_string()])),
        ("] ]]] \t=[]\t", Ok(vec!["]".to_string(), "]]]".to_string(), "=[]".to_string()])),
        ("\t[  a", Err(PamConfigSyntaxError::UnclosedBracket)),
        ("\ta]]b\t[b=]]b", Ok(vec!["a]]b".to_string(), "b=".to_string(), "]b".to_string()])),
        ("b\t\t[[]aa[", Ok(vec!["b".to_string(), "[".to_string(), "aa[".to_string()])),
        ("\\] \\]]\\=]", Ok(vec!["\\]".to_string(), "\\]]\\=]".to_string()])),
        ("=[]][ \t= ", Ok(vec!["=[]][".to_string(), "=".to_string()])),
        ("b]ab]]\\]\\]\\\tb\\", Ok(vec!["b]ab]]\\]\\]\\".to_string(), "b\\".to_string()])),
        ("=\t\tb]]\\", Ok(vec!["=".to_string(), "b]]\\".to_string()])),
        ("[]=[aa\t\\a", Ok(vec!["".to_string(), "=[aa".to_string(), "\\a".to_string()])),
        ("[b[]", Ok(vec!["b[".to_string()])),
        ("b]", Ok(vec!["b]".to_string()])),
        (" \ta\t", Ok(vec!["a".to_string()])),
        ("\t\\[b]", Ok(vec!["\\[b]".to_string()])),
        ("==[", Ok(vec!["==[".to_string()])),
        ("=]]]]\\ b[=[", Ok(vec!["=]]]]\\".to_string(), "b[=[".to_string()])),
    ];
    for case in cases {
        let (source, fields) = case;
        assert_eq!(StringTokenIterator::new(source).collect(), fields, "source {:?}", source);
    }
}

#[test]
fn blanks_of_many_texts() {
    let cases: Vec<(&str, &str, usize)> = vec![
        ("", "", 0),
        (" \n\n", "\n\n", 1),
        ("\ta\tb b", "a\tb b", 1),
        ("b \t\n bbb", "b \t\n bbb", 0),
        (" b\t", "b\t", 1),
        ("b\n\n  \t", "b\n\n  \t", 0),
        (" \t\n \t ba", "\n \t ba", 2),
        (" \t ba ", "ba ", 3),
        ("abb\tb", "abb\tb", 0),
        ("\nbbb\n ", "\nbbb\n ", 0),
        ("\t ", "", 2),
        ("\na  \n\n", "\na  \n\n", 0),
        ("a ab \t a", "a ab \t a", 0),
        (" ", "", 1),
        (" b\n ", "b\n ", 1),
        ("b ", "b ", 0),
        (" a\n", "a\n", 1),
        ("aab", "aab", 0),
        ("b \t", "b \t", 0),
        ("b b\t\n", "b b\t\n", 0),
        (" a", "a", 1),
        ("a  a\tb", "a  a\tb", 0),
        ("a\na", "a\na", 0),
        ("b bb", "b bb", 0),
    ];
    for case in cases {
        let (source, rest, skipped) = case;
        assert_eq!(skip_whitespace(source), (rest, skipped), "source {:?}", source);
    }
}

#[test]
fn first_fields_of_many_texts() {
    let cases: Vec<(&str, &str, usize)> = vec![
        ("", "", 0),
        (" \n\n", "", 1),
        ("\ta\tb b", "", 1),
        ("b \t\n bbb", "b", 2),
        (" b\t", "", 1),
        ("b\n\n  \t", "b\n\n", 4),
        (" \t\n \t ba", "", 1),
        (" \t ba ", "", 1),
        ("abb\tb", "abb", 4),
        ("\nbbb\n ", "\nbbb\n", 6),
        ("\t ", "", 1),
        ("\na  \n\n", "\na", 3),
        ("a ab \t a", "a", 2),
        (" ", "", 1),
        (" b\n ", "", 1),
        ("b ", "b", 2),
        (" a\n", "", 1),
        ("aab", "aab", 3),
        ("b \t", "b", 2),
        ("b b\t\n", "b", 2),
        (" a", "", 1),
        ("a  a\tb", "a", 2),
        ("a\na", "a\na", 3),
        ("b bb", "b", 2),
    ];
    for case in cases {
        let (source, taken, after) = case;
        assert_eq!(till_whitespace(source), (taken, after), "source {:?}", source);
    }
}

#[test]
fn first_lines_of_many_texts() {
    let cases: Vec<(&str, &str, usize)> = vec![
        ("a \\", "a \\", 3),
        ("\\a\nb\n\\ab \\\n\\", "\\a", 3),
        ("", "", 0),
        ("b\n", "b", 2),
        ("\\\nb\n  \\a\n\\a", " b", 4),
        ("baabb\\a\nbaa\n", "baabb\\a", 8),
        ("\nb\n\\a\n\n", "", 1),
        ("\n \\a\\\n ", "", 1),
        ("\nbb\\b\n\n", "", 1),
        ("\\a\n\n", "\\a", 3),
        ("\\\n\\\n", "  ", 4),
        ("\\a\\\n\n", "\\a ", 5),
        ("\nb\n\\\n", "", 1),
        ("\\\n \n", "  ", 4),
        ("\\", "\\", 1),
        ("\\ \\\nb\\ \\  ", "\\  b\\ \\  ", 10),
        ("\n", "", 1),
        ("\na", "", 1),
        ("abb\\\n", "abb ", 5),
        ("ba\n", "ba", 3),
        ("\\\n ", "  ", 3),
        ("b\n\\\n\n\\", "b", 2),
        ("\n   ", "", 1),
        ("\n\\b\n \nb\\ab\n", "", 1),
        ("b  \\\n \\aa\\", "b    \\aa\\", 10),
        ("\n\\bba ", "", 1),
        ("\n\\\n", "", 1),
        (" \\a", " \\a", 3),
        ("\\\n \\ab\n\\b\\", "  \\ab", 7),
        (" \\\na\n\n", "  a", 5),
        ("\\b\n\n b\n\n a", "\\b", 3),
        ("\na\\", "", 1),
        ("b\\b", "b\\b", 3),
        ("\\\n\\\n\\\n \\", "    \\", 8),
        ("aa\n\n", "aa", 3),
        ("\\\n", " ", 2),
        ("\n \\b\n\\ \\", "", 1),
        ("\n\\b\n", "", 1),
        ("b\\\n\n\n\na\n\na", "b ", 4),
        ("a \na", "a ", 3),
    ];
    for case in cases {
        let (source, line, after) = case;
        assert_eq!(till_end_of_line(source), (line.to_string(), after), "source {:?}", source);
    }
}

#[test]
fn strings_of_many_texts() {
    let cases: Vec<(&str, Option<(String, usize)>)> = vec![
        ("aa]\n][\\\taa", Some(("aa]\n][\\".to_string(), 8))),
        (" \n\t", Some(("".to_string(), 1))),
        ("b", Some(("b".to_string(), 1))),
        ("b   [a\n\nb \n", Some(("b".to_string(), 2))),
        ("]\\[[\\", Some(("]\\[[\\".to_string(), 5))),
        ("]]]b \t\\ ] b", Some(("]]]b".to_string(), 5))),
        ("[\n\t", None),
        ("]\tb \nb\n ]b", Some(("]".to_string(), 2))),
        ("]b ]]b\t\n[", Some(("]b".to_string(), 3))),
        ("aab \\]  \\", Some(("aab".to_string(), 4))),
        ("[\t\n  a]b", Some(("\t\n  a".to_string(), 7))),
        ("a\\\n] ]b ", Some(("a\\\n]".to_string(), 5))),
        ("", Some(("".to_string(), 0))),
        ("a  \\  \n", Some(("a".to_string(), 2))),
        ("] \t\\[a", Some(("]".to_string(), 2))),
        ("]b\n  a\t", Some(("]b\n".to_string(), 4))),
        (" ]\\[ ]a", Some(("".to_string(), 1))),
        ("]   \\ \tb\t]", Some(("]".to_string(), 2))),
        ("[bb ]", Some(("bb ".to_string(), 5))),
        ("[\t\t\n ", None),
        ("]", Some(("]".to_string(), 1))),
        ("\n ]]", Some(("\n".to_string(), 2))),
        ("a \n", Some(("a".to_string(), 2))),
        ("]]\t]]a\\\na\n", Some(("]]".to_string(), 3))),
        ("\ta\\]\t", Some(("".to_string(), 1))),
        ("\t ]ba \n \\ ", Some(("".to_string(), 1))),
        ("[a]\\ b[\n", Some(("a".to_string(), 3))),
        ("\\\n\n[b\t\n\t ", Some(("\\\n\n[b".to_string(), 6))),
        ("\\[ [\t ][]a", Some(("\\[".to_string(), 3))),
        ("\n\t ", Some(("\n".to_string(), 2))),
        ("\t ] aa]", Some(("".to_string(), 1))),
        (" b a \\[\t]", Some(("".to_string(), 1))),
        ("]] ]\n ", Some(("]]".to_string(), 3))),
        ("a[b", Some(("a[b".to_string(), 3))),
        ("\nb\\", Some(("\nb\\".to_string(), 3))),
        ("a]bb[[  []b]", Some(("a]bb[[".to_string(), 7))),
        ("b\n]\t\\]a", Some(("b\n]".to_string(), 4))),
        (" ]\t \t \n]\nb]", Some(("".to_string(), 1))),
        ("[[]\n\n", Some(("[".to_string(), 3))),
        ("\\", Some(("\\".to_string(), 1))),
        ("  ]\t[[\\\ta ", Some(("".to_string(), 1))),
        ("]aaa[\\", Some(("]aaa[\\".to_string(), 6))),
        ("  b[]", Some(("".to_string(), 1))),
        ("b[ \\b][[]b\\a", Some(("b[".to_string(), 3))),
        ("\n[\t[]a[", Some(("\n[".to_string(), 3))),
        ("]] ]]b", Some(("]]".to_string(), 3))),
        (" [][ ", Some(("".to_string(), 1))),
        (" \na", Some(("".to_string(), 1))),
        (" b]a\\b", Some(("".to_string(), 1))),
        ("\n\n\\\ta \t", Some(("\n\n\\".to_string(), 4))),
        (" ]]\n]\n\\b]a", Some(("".to_string(), 1))),
        ("a", Some(("a".to_string(), 1))),
        (" a\n \\]", Some(("".to_string(), 1))),
        ("\n[\t b", Some(("\n[".to_string(), 3))),
        (" ]\\bb\t[", Some(("".to_string(), 1))),
        ("]]", Some(("]]".to_string(), 2))),
        ("b\\a", Some(("b\\a".to_string(), 3))),
        ("b\ta[\t[a ", Some(("b".to_string(), 2))),
        ("]\n", Some(("]\n".to_string(), 2))),
        (" ", Some(("".to_string(), 1))),
    ];
    for case in cases {
        let (source, taken) = case;
        assert_eq!(take_string(source), taken, "source {:?}", source);
    }
}

#[test]
fn all_strings_of_many_texts() {
    let cases: Vec<(&str, Option<Vec<String>>)> = vec![
        ("aa]\n][\\\taa", Some(vec!["aa]\n][\\".to_string(), "aa".to_string()])),
        (" \n\t", Some(vec![])),
        ("b", Some(vec!["b".to_string()])),
        ("b   [a\n\nb \n", None),
        ("]\\[[\\", Some(vec!["]\\[[\\".to_string()])),
        ("]]]b \t\\ ] b", Some(vec!["]]]b".to_string(), "\\".to_string(), "]".to_string(), "b".to_string()])),
        ("[\n\t", None),
        ("]\tb \nb\n ]b", Some(vec!["]".to_string(), "b".to_string()])),
        ("]b ]]b\t\n[", Some(vec!["]b".to_string(), "]]b".to_string()])),
        ("aab \\]  \\", Some(vec!["aab".to_string(), "\\]".to_string(), "\\".to_string()])),
        ("[\t\n  a]b", Some(vec!["\t\n  a".to_string(), "b".to_string()])),
        ("a\\\n] ]b ", Some(vec!["a\\\n]".to_string(), "]b".to_string()])),
        ("", Some(vec![])),
        ("a  \\  \n", Some(vec!["a".to_string(), "\\".to_string()])),
        ("] \t\\[a", Some(vec!["]".to_string(), "\\[a".to_string()])),
        ("]b\n  a\t", Some(vec!["]b\n".to_string(), "a".to_string()])),
        (" ]\\[ ]a", Some(vec!["]\\[".to_string(), "]a".to_string()])),
        ("]   \\ \tb\t]", Some(vec!["]".to_string(), "\\".to_string(), "b".to_string(), "]".to_string()])),
        ("[bb ]", Some(vec!["bb ".to_string()])),
        ("[\t\t\n ", None),
        ("]", Some(vec!["]".to_string()])),
        ("\n ]]", Some(vec![])),
        ("a \n", Some(vec!["a".to_string()])),
        ("]]\t]]a\\\na\n", Some(vec!["]]".to_string(), "]]a\\\na\n".to_string()])),
        ("\ta\\]\t", Some(vec!["a\\]".to_string()])),
        ("\t ]ba \n \\ ", Some(vec!["]ba".to_string()])),
        ("[a]\\ b[\n", Some(vec!["a".to_string(), "\\".to_string(), "b[\n".to_string()])),
        ("\\\n\n[b\t\n\t ", Some(vec!["\\\n\n[b".to_string()])),
        ("\\[ [\t ][]a", Some(vec!["\\[".to_string(), "\t ".to_string()])),
        ("\n\t ", Some(vec![])),
        ("\t ] aa]", Some(vec!["]".to_string(), "aa]".to_string()])),
        (" b a \\[\t]", Some(vec!["b".to_string(), "a".to_string(), "\\[".to_string(), "]".to_string()])),
        ("]] ]\n ", Some(vec!["]]".to_string(), "]\n".to_string()])),
        ("a[b", Some(vec!["a[b".to_string()])),
        ("\nb\\", Some(vec![])),
        ("a]bb[[  []b]", Some(vec!["a]bb[[".to_string()])),
        ("b\n]\t\\]a", Some(vec!["b\n]".to_string(), "\\]a".to_string()])),
        (" ]\t \t \n]\nb]", Some(vec!["]".to_string()])),
        ("[[]\n\n", Some(vec!["[".to_string()])),
        ("\\", Some(vec!["\\".to_string()])),
        ("  ]\t[[\\\ta ", None),
        ("]aaa[\\", Some(vec!["]aaa[\\".to_string()])),
        ("  b[]", Some(vec!["b[]".to_string()])),
        ("b[ \\b][[]b\\a", Some(vec!["b[".to_string(), "\\b][[]b\\a".to_string()])),
        ("\n[\t[]a[", Some(vec![])),
        ("]] ]]b", Some(vec!["]]".to_string(), "]]b".to_string()])),
        (" [][ ", Some(vec![])),
        (" \na", Some(vec![])),
        (" b]a\\b", Some(vec!["b]a\\b".to_string()])),
        ("\n\n\\\ta \t", Some(vec![])),
        (" ]]\n]\n\\b]a", Some(vec!["]]\n]\n\\b]a".to_string()])),
        ("a", Some(vec!["a".to_string()])),
        (" a\n \\]", Some(vec!["a\n".to_string(), "\\]".to_string()])),
        ("\n[\t b", Some(vec![])),
        (" ]\\bb\t[", None),
        ("]]", Some(vec!["]]".to_string()])),
        ("b\\a", Some(vec!["b\\a".to_string()])),
        ("b\ta[\t[a ", None),
        ("]\n", Some(vec!["]\n".to_string()])),
        (" ", Some(vec![])),
    ];
    for case in cases {
        let (source, strings) = case;
        assert_eq!(take_all_strings(source), strings, "source {:?}", source);
    }
}

#[test]
fn control_strings_of_many_texts() {
    let cases: Vec<(&str, Option<(&str, usize)>)> = vec![
        ("aa]\n][\\\taa", Some(("aa]\n][\\", 8))),
        (" \n\t", Some(("", 1))),
        ("b", Some(("b", 1))),
        ("b   [a\n\nb \n", Some(("b", 2))),
        ("]\\[[\\", Some(("]\\[[\\", 5))),
        ("]]]b \t\\ ] b", Some(("]]]b", 5))),
        ("[\n\t", None),
        ("]\tb \nb\n ]b", Some(("]", 2))),
        ("]b ]]b\t\n[", Some(("]b", 3))),
        ("aab \\]  \\", Some(("aab", 4))),
        ("[\t\n  a]b", Some(("[\t\n  a]", 7))),
        ("a\\\n] ]b ", Some(("a\\\n]", 5))),
        ("", None),
        ("a  \\  \n", Some(("a", 2))),
        ("] \t\\[a", Some(("]", 2))),
        ("]b\n  a\t", Some(("]b\n", 4))),
        (" ]\\[ ]a", Some(("", 1))),
        ("]   \\ \tb\t]", Some(("]", 2))),
        ("[bb ]", Some(("[bb ]", 5))),
        ("[\t\t\n ", None),
        ("]", Some(("]", 1))),
        ("\n ]]", Some(("\n", 2))),
        ("a \n", Some(("a", 2))),
        ("]]\t]]a\\\na\n", Some(("]]", 3))),
        ("\ta\\]\t", Some(("", 1))),
        ("\t ]ba \n \\ ", Some(("", 1))),
        ("[a]\\ b[\n", Some(("[a]", 3))),
        ("\\\n\n[b\t\n\t ", Some(("\\\n\n[b", 6))),
        ("\\[ [\t ][]a", Some(("\\[", 3))),
        ("\n\t ", Some(("\n", 2))),
        ("\t ] aa]", Some(("", 1))),
        (" b a \\[\t]", Some(("", 1))),
        ("]] ]\n ", Some(("]]", 3))),
        ("a[b", Some(("a[b", 3))),
        ("\nb\\", Some(("\nb\\", 3))),
        ("a]bb[[  []b]", Some(("a]bb[[", 7))),
        ("b\n]\t\\]a", Some(("b\n]", 4))),
        (" ]\t \t \n]\nb]", Some(("", 1))),
        ("[[]\n\n", Some(("[[]", 3))),
        ("\\", Some(("\\", 1))),
    ];
    for case in cases {
        let (source, taken) = case;
        assert_eq!(take_control_string(source), taken, "source {:?}", source);
    }
}

#[test]
fn actions_of_many_texts() {
    let cases: Vec<(&str, Result<Action, ControlParseError>)> = vec![
        ("9267904167", Err(ControlParseError::JumpOverflow)),
        ("", Err(ControlParseError::EmptyString)),
        ("0195", Ok(Action::JumpOver(195))),
        ("408548772", Ok(Action::JumpOver(408548772))),
        ("93", Ok(Action::JumpOver(93))),
        ("13", Ok(Action::JumpOver(13))),
        ("664441", Ok(Action::JumpOver(664441))),
        ("005", Ok(Action::JumpOver(5))),
        ("06", Ok(Action::JumpOver(6))),
        ("1481355", Ok(Action::JumpOver(1481355))),
        ("4", Ok(Action::JumpOver(4))),
        ("33101", Ok(Action::JumpOver(33101))),
        ("22992", Ok(Action::JumpOver(22992))),
        ("31782", Ok(Action::JumpOver(31782))),
        ("5150", Ok(Action::JumpOver(5150))),
        ("2404490474", Ok(Action::JumpOver(2404490474))),
        ("37559", Ok(Action::JumpOver(37559))),
        ("1809604", Ok(Action::JumpOver(1809604))),
        ("86141345245", Err(ControlParseError::JumpOverflow)),
        ("557", Ok(Action::JumpOver(557))),
        ("8", Ok(Action::JumpOver(8))),
        ("2920897", Ok(Action::JumpOver(2920897))),
        ("870", Ok(Action::JumpOver(870))),
        ("0804241837", Ok(Action::JumpOver(804241837))),
        ("oa9", Err(ControlParseError::ExpectedDigit)),
        ("0", Err(ControlParseError::ZeroJump)),
        ("-", Err(ControlParseError::ExpectedDigit)),
        ("11", Ok(Action::JumpOver(11))),
        ("91a", Err(ControlParseError::ExpectedDigit)),
        ("a-k09", Err(ControlParseError::ExpectedDigit)),
        ("k", Err(ControlParseError::ExpectedDigit)),
        ("1aa", Err(ControlParseError::ExpectedDigit)),
        ("9", Ok(Action::JumpOver(9))),
        ("1a09", Err(ControlParseError::ExpectedDigit)),
        ("a1-", Err(ControlParseError::ExpectedDigit)),
        ("1k-", Err(ControlParseError::ExpectedDigit)),
        ("19ok", Err(ControlParseError::ExpectedDigit)),
        ("a00a-", Err(ControlParseError::ExpectedDigit)),
        ("oa", Err(ControlParseError::ExpectedDigit)),
        ("0k", Err(ControlParseError::ExpectedDigit)),
        ("o", Err(ControlParseError::ExpectedDigit)),
        ("ak-", Err(ControlParseError::ExpectedDigit)),
        ("aaaao", Err(ControlParseError::ExpectedDigit)),
        ("oa10-", Err(ControlParseError::ExpectedDigit)),
        ("o-", Err(ControlParseError::ExpectedDigit)),
        ("9a", Err(ControlParseError::ExpectedDigit)),
        ("9019k", Err(ControlParseError::ExpectedDigit)),
        ("4294967295", Ok(Action::JumpOver(4294967295))),
        ("4294967296", Err(ControlParseError::JumpOverflow)),
        ("4294967290", Ok(Action::JumpOver(4294967290))),
        ("42949672950", Err(ControlParseError::JumpOverflow)),
        ("00000000000000000001", Ok(Action::JumpOver(1))),
        ("0000000000", Err(ControlParseError::ZeroJump)),
    ];
    for case in cases {
        let (source, action) = case;
        assert_eq!(Action::from_str(source), action, "source {:?}", source);
    }
}

#[test]
fn arguments_of_many_texts() {
    let cases: Vec<(&str, Result<ModuleArgument, ()>)> = vec![
        ("=aa \tb", Err(())),
        ("b\n\n\ta\t", Err(())),
        ("\n\t", Err(())),
        ("baab ", Err(())),
        ("\t\tba  b", Err(())),
        (" \nb", Err(())),
        ("=b=aa", Err(())),
        ("==\nbaab", Err(())),
        (" b\t \n a", Err(())),
        ("\tb ", Err(())),
        ("\t=ba\t", Ok(ModuleArgument::KeyValue { key: "\t".to_string(), value: "ba\t".to_string() })),
        ("=b", Err(())),
        ("", Ok(ModuleArgument::Flag("".to_string()))),
        ("=ba=\n", Err(())),
        (" bba\tb=", Ok(ModuleArgument::KeyValue { key: " bba\tb".to_string(), value: "".to_string() })),
        ("\t \t\n\n\n ", Err(())),
        ("=ba=", Err(())),
        ("\nabb=", Ok(ModuleArgument::KeyValue { key: "\nabb".to_string(), value: "".to_string() })),
        ("\t\na=\t", Ok(ModuleArgument::KeyValue { key: "\t\na".to_string(), value: "\t".to_string() })),
        ("\n", Err(())),
        ("a\t=", Ok(ModuleArgument::KeyValue { key: "a\t".to_string(), value: "".to_string() })),
        ("aba==bb", Ok(ModuleArgument::KeyValue { key: "aba".to_string(), value: "=bb".to_string() })),
        ("===\t", Err(())),
        ("\n==", Ok(ModuleArgument::KeyValue { key: "\n".to_string(), value: "=".to_string() })),
        ("ab ", Err(())),
        ("a", Ok(ModuleArgument::Flag("a".to_string()))),
        ("\t=b\n", Ok(ModuleArgument::KeyValue { key: "\t".to_string(), value: "b\n".to_string() })),
        ("\ta\n b", Err(())),
        ("\t  ", Err(())),
        ("a \n", Err(())),
        ("b\t=\n\n\n", Ok(ModuleArgument::KeyValue { key: "b\t".to_string(), value: "\n\n\n".to_string() })),
        ("b\na", Err(())),
        ("ba=\n", Ok(ModuleArgument::KeyValue { key: "ba".to_string(), value: "\n".to_string() })),
        ("   a=", Ok(ModuleArgument::KeyValue { key: "   a".to_string(), value: "".to_string() })),
        ("=\t\na=", Err(())),
        ("ba\t\t", Err(())),
        ("\t\t=b\n\t\t", Ok(ModuleArgument::KeyValue { key: "\t\t".to_string(), value: "b\n\t\t".to_string() })),
        (" = b \ta", Ok(ModuleArgument::KeyValue { key: " ".to_string(), value: " b \ta".to_string() })),
        ("\t= b=", Ok(ModuleArgument::KeyValue { key: "\t".to_string(), value: " b=".to_string() })),
        ("a\tb\n =", Ok(ModuleArgument::KeyValue { key: "a\tb\n ".to_string(), value: "".to_string() })),
    ];
    for case in cases {
        let (source, argument) = case;
        assert_eq!(ModuleArgument::from_str(source), argument, "source {:?}", source);
    }
}

#[test]
fn separated_rules_of_many_lines() {
    let cases: Vec<(&str, &str)> = vec![
        ("password  optional  pam_unix.so k=v\tk=", "logging=true domain=password control=optional module=pam_unix.so arguments=k=v|k="),
        ("- [success=007 new_authtok_reqd=done]   [a b] \t k=v", "WrongDomain(\"\")"),
        ("session bogus\tpam-x.so  [k=a b]", "WrongControl(UnknownPreset(\"bogus\"))"),
        ("-auth", "UnclosedBracket"),
        ("\tAuth", "WrongDomain(\"\")"),
        (" \t -session \t \tpam-x.so\t[x] \t ", "WrongDomain(\"\")"),
        ("- [default=die]", "WrongDomain(\"\")"),
        ("-session  include  ", "WrongServiceName(\"\")"),
        ("account optional", "WrongModulePath(\"\")"),
        ("-", "WrongDomain(\"\")"),
        ("  Auth", "WrongDomain(\"\")"),
        ("session\t[ignore=ignore default=bad] \t ", "WrongModulePath(\"\")"),
        ("auth", "UnclosedBracket"),
        ("autho [x=ok] \t /lib/security/pam_env.so \t ", "WrongDomain(\"autho\")"),
        ("password \t [success=1 default=ignore]\t/lib/security/pam_env.so\t[x]\t[k=a\tb]", "logging=true domain=password control=[success=1 default=ignore] module=/lib/security/pam_env.so arguments=x|[k=a\tb]"),
        (" -session [default=die] \t ", "WrongDomain(\"\")"),
        ("autho [success=ok  \t try_first_pass", "WrongDomain(\"autho\")"),
        ("-session", "UnclosedBracket"),
        ("- \t sufficient \t system-auth", "WrongDomain(\"\")"),
        ("auth  [success=1 default=ignore] \t system-auth\ttry_first_pass\t[k=a b] \t ", "logging=true domain=auth control=[success=1 default=ignore] module=system-auth arguments=try_first_pass|[k=a b]"),
        ("-  [success=0]\t \t [a\\]b=c d] =x", "WrongDomain(\"\")"),
        (" \t - [success=0]", "WrongDomain(\"\")"),
        (" -session  requisite\t", "WrongDomain(\"\")"),
        (" \t [success=ok \t ", "WrongDomain(\"\")"),
        ("-\t[success=1  default=ok]", "WrongDomain(\"\")"),
        (" \t  \t [success=1  default=ok]  pam-x.so [a\\]b=c d]  [a\\]b=c d]", "WrongDomain(\"\")"),
        ("account requisite \t /lib/security/pam_env.so", "logging=true domain=account control=requisite module=/lib/security/pam_env.so arguments="),
        ("-  include \t ", "WrongDomain(\"\")"),
        ("autho", "WrongDomain(\"autho\")"),
        ("-session \t optional  a\\]b", "logging=false domain=session control=optional module=a\\]b arguments="),
        ("account  substack\tsystem-auth", "logging=true domain=account control=substack module=system-auth arguments="),
        ("session \t [success=1 default=ignore] \t pam_unix.so \t ", "logging=true domain=session control=[success=1 default=ignore] module=pam_unix.so arguments="),
        ("-session  bogus", "WrongControl(UnknownPreset(\"bogus\"))"),
        ("autho\t[ignore=ignore default=bad]", "WrongDomain(\"autho\")"),
        ("-auth bogus \t  [k=a b]", "WrongControl(UnknownPreset(\"bogus\"))"),
        ("auth bogus\tpam_unix.so", "WrongControl(UnknownPreset(\"bogus\"))"),
        ("account", "UnclosedBracket"),
        ("-session\t", "UnclosedBracket"),
        ("password\t[x=ok]  system-auth  k=v", "WrongControl(UnknownValue(\"x\"))"),
        ("-auth \t [success=ok \t /lib/security/pam_env.so =x [k=a b]", "WrongControl(ExpectedEquals)"),
        ("Auth \t [success=1  default=ok]  pam_unix.so", "WrongDomain(\"Auth\")"),
        ("\tsession", "WrongDomain(\"\")"),
        ("password \t []", "WrongControl(ExpectedEquals)"),
        ("auth  [success]", "WrongControl(ExpectedEquals)"),
        ("auth  [success=007 new_authtok_reqd=done] \t system-auth \t k=v\tnullok nullok", "logging=true domain=auth control=[success=7 new_authtok_reqd=done] module=system-auth arguments=k=v|nullok|nullok"),
        ("auth\t  ", "UnclosedBracket"),
        (" \t password \t optional", "WrongDomain(\"\")"),
        ("Auth", "WrongDomain(\"Auth\")"),
        ("Auth\t", "WrongDomain(\"Auth\")"),
        ("-  [success=ok  system-auth  ", "WrongDomain(\"\")"),
        (" [success] pam_unix.so", "WrongDomain(\"\")"),
        ("\t[success=007 new_authtok_reqd=done]", "WrongDomain(\"\")"),
        ("auth\t", "UnclosedBracket"),
        ("- \t [success=99999999999]\t", "WrongDomain(\"\")"),
        (" Auth optional", "WrongDomain(\"\")"),
        ("-session ", "UnclosedBracket"),
        ("\t[x=ok]", "WrongDomain(\"\")"),
        ("session", "UnclosedBracket"),
        (" \t -session   system-auth", "WrongDomain(\"\")"),
        ("password\trequisite  [k=a b] try_first_pass", "logging=true domain=password control=requisite module=[k=a arguments=b]|try_first_pass"),
        ("account [ignore=ignore default=bad]  pam-x.so", "logging=true domain=account control=[ignore=ignore default=bad] module=pam-x.so arguments="),
        ("auth \t sufficient  /lib/security/pam_env.so", "logging=true domain=auth control=sufficient module=/lib/security/pam_env.so arguments="),
        ("-auth  [success=1 default=ignore]  system-auth  [k=v  [a\\]b=c d]  nullok", "logging=false domain=auth control=[success=1 default=ignore] module=system-auth arguments=[k=v  [a]b=c d]|nullok"),
        ("-auth\t[] \t ", "WrongControl(ExpectedEquals)"),
        ("auth  [success] \t system-auth\ttry_first_pass [a b]  [k=a b]", "WrongControl(ExpectedEquals)"),
        ("auth \t [x=ok]", "WrongControl(UnknownValue(\"x\"))"),
        ("auth [default=die]", "WrongModulePath(\"\")"),
        ("-session  [] \t pam-x.so", "WrongControl(ExpectedEquals)"),
        ("session\t[success=99999999999] \t pam-x.so ", "WrongControl(UnknownAction(\"99999999999\"))"),
        ("session  optional", "WrongModulePath(\"\")"),
        ("-\tbogus\t\t[a b] \t =x [a\\]b=c d]", "WrongDomain(\"\")"),
        ("autho required \t /lib/security/pam_env.so  k=v", "WrongDomain(\"autho\")"),
        ("session optional pam-x.so", "logging=true domain=session control=optional module=pam-x.so arguments="),
        ("session\t[ignore=ignore default=bad]   \t a\\]b [k=a\tb]", "logging=true domain=session control=[ignore=ignore default=bad] module=a\\]b arguments=[k=a\tb]"),
        (" \t [] ", "WrongDomain(\"\")"),
        ("-session\t[ignore=ignore default=bad] \t /lib/security/pam_env.so\t[k=v  a\\]b", "UnclosedBracket"),
        ("auth \t [success]   [k=a b]", "WrongControl(ExpectedEquals)"),
        ("autho \t  \t pam_unix.so\t[k=v", "WrongDomain(\"autho\")"),
        ("session   \t pam_unix.so", "WrongControl(UnknownPreset(\"pam_unix.so\"))"),
        ("-auth\t[]  /lib/security/pam_env.so", "WrongControl(ExpectedEquals)"),
        ("- sufficient  ", "WrongDomain(\"\")"),
        (" \t session", "WrongDomain(\"\")"),
        (" [success=99999999999] \t system-auth", "WrongDomain(\"\")"),
        ("-\t \t pam_unix.so", "WrongDomain(\"\")"),
        ("auth   \t /lib/security/pam_env.so \t [k=v", "WrongControl(UnknownPreset(\"/lib/security/pam_env.so\"))"),
        ("-auth\t\t", "UnclosedBracket"),
        ("password  required", "WrongModulePath(\"\")"),
        ("-\t[success=1  default=ok] system-auth [k=a\tb] \t nullok", "WrongDomain(\"\")"),
        ("session \t [default=die] \t   k=\t[k=a\tb]", "logging=true domain=session control=[default=die] module=k= arguments=[k=a\tb]"),
        ("password", "UnclosedBracket"),
    ];
    for case in cases {
        let (line, rule) = case;
        assert_eq!(shown(take_separated_rule(line)), rule, "line {:?}", line);
    }
}

#[test]
fn packed_rules_of_many_lines() {
    let cases: Vec<(&str, &str)> = vec![
        ("[my service]   [ignore=ignore default=bad] pam-x.so", "WrongServiceName(\"my service\")"),
        ("sshd   \t - \t [success=1 default=ignore]\t/lib/security/pam_env.so  k=v\ta\\]b", "WrongDomain(\"\")"),
        ("[x -session  [x=ok]  pam-x.so", "WrongServiceName(\"x -session  [x=ok\")"),
        ("[x Auth\tbogus \t /lib/security/pam_env.so [k=a b]", "WrongServiceName(\"x Auth\\tbogus \\t /lib/security/pam_env.so [k=a b\")"),
        ("su-l auth  [success] \t /lib/security/pam_env.so ", "WrongControl(ExpectedEquals)"),
        ("su-l  autho \t [success] \t system-auth", "WrongDomain(\"autho\")"),
        ("login -auth", "UnclosedBracket"),
        ("su-l\tautho \t [success=99999999999]\tpam_unix.so  [x]\t[a b]", "WrongDomain(\"autho\")"),
        ("[x autho   ", "UnclosedBracket"),
        ("[x  -session\t[success=ok", "UnclosedBracket"),
        ("su-l\t-session  [default=die] pam_unix.so", "service=su-l logging=false domain=session control=[default=die] module=pam_unix.so arguments="),
        ("[x\t-auth  include\tpam-x.so\tnullok", "UnclosedBracket"),
        ("[x  account \t [default=die] \t pam_unix.so", "WrongServiceName(\"x  account \\t [default=die\")"),
        ("login -  [] ", "WrongDomain(\"\")"),
        ("sshd account\t[success=99999999999]  /lib/security/pam_env.so \t [k=a\tb]\t[k=a b]  ", "WrongControl(UnknownAction(\"99999999999\"))"),
        ("[my service] account  include  pam_unix.so\tnullok  ", "WrongServiceName(\"my service\")"),
        ("  - [default=die]", "WrongServiceName(\"\")"),
        ("[my service] session\t[success=99999999999] /lib/security/pam_env.so", "WrongServiceName(\"my service\")"),
        ("[x    session\t[success=0]  system-auth  [x]\t[a\\]b=c d]", "WrongServiceName(\"x    session\\t[success=0\")"),
        ("su-l  -\t[success=0] \t  try_first_pass\t=x \t [k=v", "WrongDomain(\"\")"),
        ("login\tauth\tinclude \t pam-x.so", "WrongServiceName(\"pam-x.so\")"),
        ("[my service]  -auth \t  pam-x.so", "WrongServiceName(\"my service\")"),
        (" password \t required", "WrongServiceName(\"\")"),
        ("\tAuth  [success=007 new_authtok_reqd=done]  \t [a\\]b=c d]", "WrongServiceName(\"\")"),
        (" -", "WrongServiceName(\"\")"),
        ("[x  \t bogus\t", "UnclosedBracket"),
        ("[x  Auth  substack\tpam-x.so \t [k=a\tb]", "WrongServiceName(\"x  Auth  substack\\tpam-x.so \\t [k=a\\tb\")"),
        ("\taccount\tinclude \t ", "WrongServiceName(\"\")"),
        ("su-l Auth \t ", "WrongDomain(\"Auth\")"),
        ("\t-  ", "WrongServiceName(\"\")"),
        ("[my service]   password\tinclude", "WrongServiceName(\"my service\")"),
        ("login\tautho \t [success=ok", "WrongDomain(\"autho\")"),
        ("login autho  [success=007 new_authtok_reqd=done] pam-x.so", "WrongDomain(\"autho\")"),
        ("sshd autho\t[default=die] \t  \t nullok  k=v", "WrongDomain(\"autho\")"),
        (" \tauth requisite", "WrongServiceName(\"\")"),
        ("su-l  session", "UnclosedBracket"),
        ("su-l\taccount \t required  /lib/security/pam_env.so\t[x]\ta\\]b", "service=su-l logging=true domain=account control=required module=/lib/security/pam_env.so arguments=x|a\\]b"),
        ("su-l  autho", "WrongDomain(\"autho\")"),
        ("[x\taccount\tinclude /lib/security/pam_env.so", "UnclosedBracket"),
        ("[x password \t []", "WrongServiceName(\"x password \\t [\")"),
        ("[my service]  -auth \t [success=1  default=ok] ", "WrongServiceName(\"my service\")"),
        (" -auth", "WrongServiceName(\"\")"),
        ("[my service] autho  [success=ok", "WrongServiceName(\"my service\")"),
        ("[my service] password  [success=ok ", "WrongServiceName(\"my service\")"),
        (" \t[success=1  default=ok]", "WrongServiceName(\"\")"),
        (" account  ", "WrongServiceName(\"\")"),
        ("sshd autho", "WrongDomain(\"autho\")"),
        ("  -session \t [success=1  default=ok]  system-auth k=  k=v", "WrongServiceName(\"\")"),
        ("sshd autho  [success=ok  /lib/security/pam_env.so\ttry_first_pass \t [a\\]b=c d]", "WrongDomain(\"autho\")"),
        ("sshd  -auth", "UnclosedBracket"),
    ];
    for case in cases {
        let (line, rule) = case;
        let read = match take_packed_rule(line) {
            Ok((service, rule)) => format!("service={} {}", service.as_ref(), shown(Ok(rule))),
            Err(e) => shown(Err(e)),
        };
        assert_eq!(read, rule, "line {:?}", line);
    }
}

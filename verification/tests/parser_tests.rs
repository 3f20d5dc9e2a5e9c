use tug::instruction::Instruction;
use tug::parser::{parse_file, parse_line, parse_port, split_ws, lines_of};
use tug::text::{trim, str_eq, starts_with, find_char};

#[test]
fn test_parse_full_tugfile() {
    let input = r#"
    FROM alpine
    WORKDIR /app
    COPY . /app
    RUN apk add --no-cache curl
    EXPOSE 8080
    CMD ["./start.sh"]
"#;

    let result: Vec<Instruction> = parse_file(input);
    assert_eq!(result.len(), 6);
}

#[test]
fn parse_file_keeps_file_order_and_variants() {
    let input = "FROM alpine\nWORKDIR /app\nCOPY . /app\nRUN apk add --no-cache curl\nEXPOSE 8080\nCMD [\"./start.sh\"]\n";
    let result = parse_file(input);
    assert_eq!(
        result,
        vec![
            Instruction::FromImage("alpine".to_string()),
            Instruction::Workdir("/app".to_string()),
            Instruction::Copy { src: ".".to_string(), dest: "/app".to_string() },
            Instruction::Run("apk add --no-cache curl".to_string()),
            Instruction::Expose(8080),
            Instruction::Cmd("[\"./start.sh\"]".to_string()),
        ]
    );
}

#[test]
fn parse_line_verbatim_keywords() {
    assert_eq!(
        parse_line("FROM ubuntu:20.04"),
        Some(Instruction::FromImage("ubuntu:20.04".to_string()))
    );
    assert_eq!(
        parse_line("  RUN apt-get update  "),
        Some(Instruction::Run("apt-get update".to_string()))
    );
    assert_eq!(parse_line("CMD ./start.sh"), Some(Instruction::Cmd("./start.sh".to_string())));
    assert_eq!(parse_line("WORKDIR /srv"), Some(Instruction::Workdir("/srv".to_string())));
    assert_eq!(
        parse_line("ENTRYPOINT /bin/init"),
        Some(Instruction::EntryPoint("/bin/init".to_string()))
    );
}

#[test]
fn parse_line_two_field_keywords() {
    assert_eq!(
        parse_line("COPY a.txt /app/a.txt"),
        Some(Instruction::Copy { src: "a.txt".to_string(), dest: "/app/a.txt".to_string() })
    );
    assert_eq!(
        parse_line("ADD pkg.tar /opt"),
        Some(Instruction::Add { src: "pkg.tar".to_string(), dest: "/opt".to_string() })
    );
    assert_eq!(parse_line("COPY onlyone"), None);
    assert_eq!(parse_line("ADD one two three"), None);
}

#[test]
fn parse_line_env() {
    assert_eq!(
        parse_line("ENV PATH=/usr/bin"),
        Some(Instruction::Env { key: "PATH".to_string(), value: "/usr/bin".to_string() })
    );
    assert_eq!(
        parse_line("ENV  KEY = a=b "),
        Some(Instruction::Env { key: "KEY".to_string(), value: "a=b".to_string() })
    );
    assert_eq!(parse_line("ENV NOEQUALS"), None);
}

#[test]
fn parse_line_expose() {
    assert_eq!(parse_line("EXPOSE 8080"), Some(Instruction::Expose(8080)));
    assert_eq!(parse_line("EXPOSE 0"), Some(Instruction::Expose(0)));
    assert_eq!(parse_line("EXPOSE 65535"), Some(Instruction::Expose(65535)));
    assert_eq!(parse_line("EXPOSE 65536"), None);
    assert_eq!(parse_line("EXPOSE eighty"), None);
    assert_eq!(parse_line("EXPOSE "), None);
}

#[test]
fn parse_line_unknown_or_blank() {
    assert_eq!(parse_line(""), None);
    assert_eq!(parse_line("   "), None);
    assert_eq!(parse_line("# a comment"), None);
    assert_eq!(parse_line("LABEL x=y"), None);
    assert_eq!(parse_line("FROM"), None);
}

#[test]
fn parse_file_is_a_pure_function_of_its_input() {
    let input = "FROM alpine\nRUN echo hi\nnot an instruction\nEXPOSE 80\n";
    let first = parse_file(input);
    let second = parse_file(input);
    assert_eq!(first, second);
    assert_eq!(first.len(), 3);
}

#[test]
fn parse_port_accepts_sign_and_rejects_overflow() {
    assert_eq!(parse_port("80"), Some(80));
    assert_eq!(parse_port("+80"), Some(80));
    assert_eq!(parse_port("080"), Some(80));
    assert_eq!(parse_port(""), None);
    assert_eq!(parse_port("+"), None);
    assert_eq!(parse_port("-1"), None);
    assert_eq!(parse_port("70000"), None);
    assert_eq!(parse_port("8 0"), None);
}

#[test]
fn text_helpers_behave() {
    assert_eq!(trim("  x y\t"), "x y");
    assert_eq!(trim(""), "");
    assert!(str_eq("abc", "abc"));
    assert!(!str_eq("abc", "abd"));
    assert!(starts_with("FROM x", "FROM "));
    assert!(!starts_with("FRO", "FROM "));
    assert_eq!(find_char("a=b", '='), 1);
    assert_eq!(find_char("ab", '='), 2);
    assert_eq!(split_ws(" a  bb c "), vec!["a".to_string(), "bb".to_string(), "c".to_string()]);
    assert_eq!(split_ws("   "), Vec::<String>::new());
    assert_eq!(lines_of("a\r\nb\nc"), vec!["a".to_string(), "b".to_string(), "c".to_string()]);
    assert_eq!(lines_of("a\n"), vec!["a".to_string()]);
}

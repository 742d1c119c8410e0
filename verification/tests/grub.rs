use grubstation::grub::parse_grub_entries;

fn text(lines: &[&str]) -> String {
    lines.iter().map(|line| format!("{}\n", line)).collect()
}

#[test]
fn test_parse_simple_grub() {
    let menu = text(&[
        "menuentry 'Ubuntu' {",
        "  linux /boot/vmlinuz",
        "}",
        "submenu 'Advanced' {",
        "  menuentry 'Kernel 1' {",
        "    linux /boot/vmlinuz-1",
        "  }",
        "}",
    ]);
    let entries = parse_grub_entries(&menu);
    assert_eq!(entries, vec!["Ubuntu", "Advanced>Kernel 1"]);
}

#[test]
fn test_nested_submenus() {
    let menu = text(&[
        "submenu 'A' {",
        "  submenu 'B' {",
        "    menuentry 'C' {",
        "      echo 1",
        "    }",
        "  }",
        "  menuentry 'D' {",
        "    echo 2",
        "  }",
        "}",
    ]);
    let entries = parse_grub_entries(&menu);
    assert_eq!(entries, vec!["A>B>C", "A>D"]);
}

#[test]
fn titles_may_have_double_quotes_and_options_behind_them() {
    let menu = text(&[
        "menuentry \"Arch Linux\" --class arch $menuentry_id_option 'x' {",
        "}",
        "\tmenuentry\t'Tabbed' {",
        "}",
        "menuentry 'No brace'",
        "menuentry unquoted {",
        "}",
        "menuentry '' {",
        "}",
        "menuentry 'open {",
        "}",
        "# menuentry 'comment' {",
        "}",
    ]);
    assert_eq!(parse_grub_entries(&menu), vec!["Arch Linux", "Tabbed", "No brace"]);
}

#[test]
fn a_submenu_ends_where_its_braces_close() {
    let menu = text(&[
        "if [ x ]; then { echo; }",
        "submenu 'S' {",
        "  if { true; } { echo; }",
        "  menuentry 'In' {",
        "    echo }",
        "}",
        "menuentry 'Out' {",
        "}",
    ]);
    assert_eq!(parse_grub_entries(&menu), vec!["S>In", "Out"]);
}

#[test]
fn every_declaration_gives_one_entry() {
    let menu = text(&["menuentry 'A' {", "}", "menuentry 'A' {", "}", "}", "}", "menuentry 'B' {"]);
    assert_eq!(parse_grub_entries(&menu), vec!["A", "A", "B"]);
}

#[test]
fn a_written_menu_is_read_back() {
    let menu = text(&[
        "set root=${r}",
        "function f {",
        "  if [ ${x} ]; then { echo }; fi",
        "}",
        "\tsubmenu  \"More {\" --class x ${o} {",
        "\t\tmenuentry 'One\" $menuentry_id_option 'i' {\r",
        "\t\t\tlinux ${kernel}",
        "\t\t}  ",
        "\t\tsubmenu 'Deep' {",
        "\t\t\tset a=${b}",
        "\t\t\tmenuentry 'Two' { # {",
        "\t\t\t}\r",
        "\t\t}",
        "\t}",
        "menuentry 'Three' {",
        "}",
    ]);
    assert_eq!(parse_grub_entries(&menu), vec!["More {>One", "More {>Deep>Two", "Three"]);
}

#[test]
fn an_entry_stands_below_the_submenus_around_it() {
    let menu = text(&[
        "submenu 'A' {",
        "  submenu 'B' {",
        "    if [ x ]; then {",
        "      menuentry 'C' ${o} {",
        "      } } } menu ends; {",
        "  }",
        "  menuentry 'D' { # in A",
        "}}",
        "menuentry 'E' {",
        "  }",
        "} {",
        "submenu 'F' {",
        "menuentry 'G' {",
        "}}}",
        "menuentry 'H' {",
    ]);
    assert_eq!(parse_grub_entries(&menu), vec!["A>B>C", "A>D", "E", "F>G", "H"]);
}

#[test]
fn whole_menus_stand_alone() {
    let a = "submenu 'A' {\n  menuentry 'B' {\n    echo ${c}\n  }\n}\n";
    let b = "menuentry 'D' {\n}\n}\nsubmenu 'E' {\nmenuentry 'F' {";
    let mut both = parse_grub_entries(a);
    both.extend(parse_grub_entries(b));
    assert_eq!(parse_grub_entries(&format!("{}{}", a, b)), both);
    assert_eq!(both, vec!["A>B", "D", "E>F"]);
}

#[test]
fn other_line_ends_and_no_lines_at_all() {
    assert!(parse_grub_entries("").is_empty());
    assert!(parse_grub_entries("\n\n").is_empty());
    assert_eq!(
        parse_grub_entries("submenu 'S' {\r\nmenuentry 'E' {\r\n}\r\n}\r\nmenuentry 'F' {"),
        vec!["S>E", "F"]
    );
}

use mdbook_blush::cli::{run_supports_command, Action, Args, Command, InstallCmd, SupportsCmd};
use mdbook_blush::install::{
    run_install_command_impl, style_sheet, style_sheet_listed, style_sheet_name, BookToml, Entry,
    InstallError, InstallPlan,
};
use mdbook_blush::version::{check_version, version_warning, VersionCheck};

fn empty_book() -> BookToml {
    BookToml {
        output: Entry::Missing,
        html: Entry::Missing,
        additional_css: Entry::Missing,
        css_listed: false,
        preprocessor: Entry::Missing,
        blush: Entry::Missing,
    }
}

fn installed_book() -> BookToml {
    BookToml {
        output: Entry::Table,
        html: Entry::Table,
        additional_css: Entry::Array,
        css_listed: true,
        preprocessor: Entry::Table,
        blush: Entry::Table,
    }
}

#[test]
fn empty_book_gets_everything() {
    let plan = run_install_command_impl(&empty_book());
    assert_eq!(
        plan,
        Ok(InstallPlan {
            add_output: true,
            add_html: true,
            add_additional_css: true,
            add_css_path: true,
            add_preprocessor: true,
            add_blush: true,
            warn_blush: false,
        })
    );
    assert!(plan.unwrap().changed());
}

#[test]
fn second_installation_adds_nothing() {
    let plan = run_install_command_impl(&installed_book());
    assert_eq!(
        plan,
        Ok(InstallPlan {
            add_output: false,
            add_html: false,
            add_additional_css: false,
            add_css_path: false,
            add_preprocessor: false,
            add_blush: false,
            warn_blush: false,
        })
    );
    assert!(!plan.unwrap().changed());
}

#[test]
fn unlisted_style_sheet_is_added() {
    let book = BookToml { css_listed: false, ..installed_book() };
    let plan = run_install_command_impl(&book).unwrap();
    assert!(plan.add_css_path);
    assert!(!plan.add_additional_css);
    assert!(plan.changed());
}

#[test]
fn entry_under_a_missing_key_counts_as_missing() {
    let book = BookToml { output: Entry::Missing, html: Entry::Other, ..installed_book() };
    let plan = run_install_command_impl(&book).unwrap();
    assert!(plan.add_output && plan.add_html && plan.add_additional_css && plan.add_css_path);
    assert!(!plan.add_preprocessor && !plan.add_blush);
}

#[test]
fn blush_that_is_no_table_is_a_warning() {
    let book = BookToml { blush: Entry::Other, ..installed_book() };
    let plan = run_install_command_impl(&book).unwrap();
    assert!(plan.warn_blush);
    assert!(!plan.add_blush);
    assert!(!plan.changed());
}

#[test]
fn entries_in_the_way_are_errors() {
    let book = BookToml { output: Entry::Other, ..installed_book() };
    assert_eq!(run_install_command_impl(&book), Err(InstallError::OutputNotTable));
    let book = BookToml { output: Entry::Array, html: Entry::Other, ..installed_book() };
    assert_eq!(run_install_command_impl(&book), Err(InstallError::OutputNotTable));
    let book = BookToml { html: Entry::Array, ..installed_book() };
    assert_eq!(run_install_command_impl(&book), Err(InstallError::HtmlNotTable));
    let book = BookToml { additional_css: Entry::Table, ..installed_book() };
    assert_eq!(run_install_command_impl(&book), Err(InstallError::AdditionalCssNotArray));
    let book = BookToml { preprocessor: Entry::Other, ..installed_book() };
    assert_eq!(run_install_command_impl(&book), Err(InstallError::PreprocessorNotTable));
    let book = BookToml {
        additional_css: Entry::Other,
        preprocessor: Entry::Array,
        ..installed_book()
    };
    assert_eq!(run_install_command_impl(&book), Err(InstallError::AdditionalCssNotArray));
}

#[test]
fn errors_in_words() {
    assert_eq!(InstallError::OutputNotTable.message(), "`output` entry must be a table");
    assert_eq!(InstallError::HtmlNotTable.message(), "`output.html` entry must be a table");
    assert_eq!(
        InstallError::AdditionalCssNotArray.message(),
        "`output.html.additional-css` must be an array"
    );
    assert_eq!(
        InstallError::PreprocessorNotTable.message(),
        "`preprocessor` entry must be a table"
    );
}

#[test]
fn style_sheet_sets_small_caps() {
    assert_eq!(style_sheet(), ".small-caps {\n    font-variant: small-caps;\n}\n");
    assert_eq!(style_sheet_name(), "blush.css");
}

#[test]
fn supports_command_answers_for_html_alone() {
    assert!(run_supports_command(SupportsCmd { renderer: "html".to_string() }));
    assert!(!run_supports_command(SupportsCmd { renderer: "pdf".to_string() }));
    assert!(!run_supports_command(SupportsCmd { renderer: String::new() }));
}

#[test]
fn arguments_decide_the_action() {
    let supports = Args {
        command: Some(Command::Supports(SupportsCmd { renderer: "html".to_string() })),
    };
    assert!(matches!(supports.action(), Action::Answer(true)));
    let supports = Args {
        command: Some(Command::Supports(SupportsCmd { renderer: "epub".to_string() })),
    };
    assert!(matches!(supports.action(), Action::Answer(false)));
    let install = Args {
        command: Some(Command::Install(InstallCmd {
            book_root_dir: ".".to_string(),
            css_dir: "theme/css".to_string(),
        })),
    };
    match install.action() {
        Action::Install(cmd) => {
            assert_eq!(cmd.book_root_dir, ".");
            assert_eq!(cmd.css_dir, "theme/css");
        }
        _ => panic!("not an installation"),
    }
    assert!(matches!(Args { command: None }.action(), Action::Preprocess));
}

#[test]
fn versions_are_compared() {
    assert_eq!(check_version("0.4.52", "0.4.52"), VersionCheck::Compatible);
    assert_eq!(check_version("0.4.60", "0.4.52"), VersionCheck::Compatible);
    assert_eq!(check_version("0.4.10", "0.4.52"), VersionCheck::Mismatch);
    assert_eq!(check_version("0.5.0", "0.4.52"), VersionCheck::Mismatch);
    assert_eq!(check_version("1.2.3", "1.0.0"), VersionCheck::Compatible);
    assert_eq!(check_version("nonsense", "0.4.52"), VersionCheck::BadHostVersion);
    assert_eq!(check_version("nonsense", "more nonsense"), VersionCheck::BadHostVersion);
    assert_eq!(check_version("0.4.52", "more nonsense"), VersionCheck::BadBuiltVersion);
}

#[test]
fn warning_names_both_versions() {
    assert_eq!(
        version_warning("mdbook-blush", "0.4.52", "0.5.0"),
        "Warning: The mdbook-blush plugin was build against version 0.4.52 of mdbook, but is being called from version 0.5.0"
    );
}

#[test]
fn style_sheet_is_found_in_the_list() {
    let entries = vec!["a.css".to_string(), "theme/css/blush.css".to_string()];
    assert!(style_sheet_listed(&entries, "theme/css/blush.css"));
    assert!(style_sheet_listed(&entries, "a.css"));
    assert!(!style_sheet_listed(&entries, "theme/css/blush.cs"));
    assert!(!style_sheet_listed(&entries, "blush.css"));
    assert!(!style_sheet_listed(&entries, ""));
    assert!(!style_sheet_listed(&Vec::new(), "theme/css/blush.css"));
}

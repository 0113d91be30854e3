//! Installing plugins and themes.

use tuzminal::pkg::{
    check_entry, check_removal, confirmed, consent_text, count_themes, inside_root, is_git_url,
    name_error_message, name_from_url, not_installed, plan_install, pull_command, pull_summary,
    removal_of, resolve_from_registry, search, update_line, update_report, update_targets,
    update_verdict, Kind, Manifest, NameError, RegistryEntry, Runtime, UpdateResult,
};

#[test]
fn git_urls_are_distinguished_from_registry_names() {
    assert!(is_git_url("https://github.com/a/b"));
    assert!(is_git_url("git@github.com:a/b.git"));
    assert!(is_git_url("ssh://git@host/a/b"));
    assert!(!is_git_url("statusbar"));
    assert!(!is_git_url("my-theme"));
}

#[test]
fn names_are_derived_from_the_last_url_segment() {
    assert_eq!(
        name_from_url("https://github.com/a/cool-plugin").unwrap(),
        "cool-plugin"
    );
    assert_eq!(
        name_from_url("https://github.com/a/cool-plugin.git").unwrap(),
        "cool-plugin"
    );
    assert_eq!(
        name_from_url("https://github.com/a/cool-plugin/").unwrap(),
        "cool-plugin"
    );
    assert_eq!(
        name_from_url("git@github.com:a/thing.git").unwrap(),
        "thing"
    );
}

#[test]
fn a_derived_name_is_always_a_single_safe_component() {
    let root = std::path::Path::new("/data/plugins");
    for url in [
        "https://host/a/../../etc",
        "https://github.com/user/repo.git",
        "git@github.com:user/repo",
        "https://host/a/b_c-1.2",
    ] {
        let name = name_from_url(url).unwrap_or_else(|e| panic!("`{url}`: {e:?}"));
        assert!(
            !name.contains('/') && !name.contains('\\') && name != "..",
            "`{url}` produced `{name}`"
        );
        assert!(
            root.join(&name).starts_with(root),
            "`{name}` escapes the install root"
        );
    }
}

#[test]
fn names_that_are_not_usable_directories_are_rejected() {
    for bad in [
        "https://host/a/..",
        "https://host/a/.hidden",
        "https://host/a/we;ird",
        "https://host/a/sp ace",
        "https://host/a/quo\"te",
    ] {
        assert!(
            name_from_url(bad).is_err(),
            "`{bad}` should be rejected, got {:?}",
            name_from_url(bad)
        );
    }
}

#[test]
fn install_roots_are_under_the_data_directory() {
    assert_eq!(Kind::Plugin.install_root("/data"), "/data/plugins");
    assert_eq!(Kind::Theme.install_root("/data"), "/data/themes");
}

#[test]
fn removing_a_name_with_a_path_separator_is_refused() {
    for bad in ["../../etc/passwd", "sub/dir", "", ".hidden", "a\\b"] {
        let err = check_removal(Kind::Plugin, bad).unwrap_err();
        assert!(err.contains("not a valid"), "`{bad}` gave: {err}");
    }
    assert_eq!(check_removal(Kind::Plugin, "statusbar"), Ok(()));
}

#[test]
fn removing_something_absent_says_so_rather_than_succeeding() {
    assert_eq!(check_removal(Kind::Plugin, "ghost"), Ok(()));
    let err = not_installed(Kind::Plugin, "ghost", "/nonexistent/data/plugins/ghost");
    assert!(err.contains("not installed"), "{err}");
    assert_eq!(
        err,
        "plugin `ghost` is not installed (nothing at /nonexistent/data/plugins/ghost)"
    );
}

fn package(name: &str, url: &str, description: &str) -> RegistryEntry {
    RegistryEntry {
        name: name.to_owned(),
        url: url.to_owned(),
        description: description.to_owned(),
    }
}

fn registry() -> Vec<RegistryEntry> {
    vec![
        package(
            "statusbar",
            "https://github.com/tuzminal/statusbar",
            "A configurable status bar",
        ),
        package("dracula", "https://github.com/tuzminal/theme-dracula", ""),
    ]
}

#[test]
fn a_registry_name_leads_to_its_url() {
    assert_eq!(
        resolve_from_registry(Kind::Plugin, &registry(), "statusbar"),
        Ok("https://github.com/tuzminal/statusbar".to_owned())
    );
    assert_eq!(
        resolve_from_registry(Kind::Theme, &registry(), "dracula"),
        Ok("https://github.com/tuzminal/theme-dracula".to_owned())
    );
}

#[test]
fn a_name_the_registry_lacks_says_how_to_see_what_there_is() {
    let err = resolve_from_registry(Kind::Plugin, &[], "whatever").unwrap_err();
    assert_eq!(
        err,
        "no plugin named `whatever` in the registry\ntry `tuzminal plugin search` to see what is available"
    );
}

#[test]
fn a_search_ignores_letter_case_and_reads_descriptions() {
    let all = search(&registry(), None);
    assert_eq!(all.len(), 2);
    let found = search(&registry(), Some("STATUS"));
    assert_eq!(found.len(), 1);
    assert!(found[0].contains("statusbar"), "{}", found[0]);
    let described = search(&registry(), Some("Configurable"));
    assert_eq!(described, found);
    assert_eq!(search(&registry(), Some("zzz")), vec!["nothing matched".to_owned()]);
}

#[test]
fn each_kind_of_bad_name_has_its_own_message() {
    let missing = name_from_url("").unwrap_err();
    assert_eq!(missing, NameError::Missing);
    assert_eq!(
        name_error_message(&missing, ""),
        "cannot work out a name from ``"
    );
    let hidden = name_from_url("https://host/a/.hidden").unwrap_err();
    assert_eq!(hidden, NameError::NotUsable(".hidden".to_owned()));
    assert_eq!(
        name_error_message(&hidden, "https://host/a/.hidden"),
        "`.hidden` is not a usable directory name"
    );
    let odd = name_from_url("https://host/a/we;ird").unwrap_err();
    assert_eq!(odd, NameError::BadCharacters("we;ird".to_owned()));
    assert_eq!(
        name_error_message(&odd, "https://host/a/we;ird"),
        "`we;ird` contains characters that are not valid in a directory name"
    );
}

#[test]
fn an_install_is_staged_beside_the_root() {
    let plan = plan_install(Kind::Plugin, "/data", "https://host/a/thing.git").unwrap();
    assert_eq!(plan.name, "thing");
    assert_eq!(plan.root, "/data/plugins");
    assert_eq!(plan.target, "/data/plugins/thing");
    assert_eq!(plan.staging, "/data/.staging-thing");
    assert_eq!(plan.clone[0], "clone");
    assert!(plan.clone.iter().any(|a| a == "https://host/a/thing.git"));
    assert_eq!(
        plan_install(Kind::Plugin, "/data", "https://host/a/..").unwrap_err(),
        NameError::NotUsable("..".to_owned())
    );
}

#[test]
fn consent_states_whether_the_list_is_a_limit() {
    let mut manifest = Manifest {
        name: "statusbar".to_owned(),
        version: "1.0.0".to_owned(),
        runtime: Runtime::Lua,
        entry: "init.lua".to_owned(),
        description: String::new(),
        permissions: vec!["read files".to_owned()],
    };
    let text = consent_text(&manifest).join("\n");
    assert!(text.contains("  statusbar 1.0.0"), "{text}");
    assert!(text.contains("    - read files"), "{text}");
    assert!(text.contains("NOT sandboxed"), "{text}");
    manifest.runtime = Runtime::Wasm;
    manifest.permissions = Vec::new();
    let text = consent_text(&manifest).join("\n");
    assert!(text.contains("permissions: none"), "{text}");
    assert!(text.contains("this plugin is sandboxed"), "{text}");
}

#[test]
fn only_yes_is_yes() {
    assert!(confirmed(true, ""));
    assert!(confirmed(false, " Y\n"));
    assert!(confirmed(false, "yes\n"));
    assert!(!confirmed(false, "\n"));
    assert!(!confirmed(false, "no\n"));
    assert!(!confirmed(false, "yep\n"));
}

#[test]
fn a_theme_repository_needs_a_theme() {
    let names = vec!["a.toml".to_owned(), "readme.md".to_owned(), "b.toml".to_owned()];
    assert_eq!(count_themes(&names), Ok(2));
    assert_eq!(
        count_themes(&Vec::new()).unwrap_err(),
        "no .toml theme files found in the repository"
    );
    assert_eq!(check_entry("init.lua", true), Ok(()));
    assert_eq!(
        check_entry("init.lua", false).unwrap_err(),
        "the manifest names entry `init.lua`, which is not in the repository"
    );
}

#[test]
fn only_a_direct_child_of_the_root_is_removed() {
    let removal = |name: &str, resolved: Option<&str>| {
        removal_of(Kind::Plugin, name, "/data/plugins/a", resolved, "/data/plugins")
    };
    assert_eq!(removal("a", Some("/data/plugins/a")), Ok("/data/plugins/a".to_owned()));
    assert!(removal("../a", Some("/data/plugins/a")).unwrap_err().contains("not a valid"));
    assert!(removal("a", None).unwrap_err().contains("not installed"));
    for elsewhere in ["/etc", "/data/plugins", "/data/plugins/b/c"] {
        assert_eq!(
            removal("a", Some(elsewhere)).unwrap_err(),
            format!("refusing to remove {elsewhere}: it resolves outside /data/plugins")
        );
    }
}

#[test]
fn updates_are_summed_up() {
    assert_eq!(pull_summary(""), "updated");
    assert_eq!(pull_summary("Already up to date.\n"), "Already up to date.");
    assert_eq!(pull_summary("a\n 1 file changed\n"), "1 file changed");
    assert_eq!(update_verdict(0), Ok(()));
    assert_eq!(update_verdict(3).unwrap_err(), "3 item(s) failed to update");
}

#[test]
fn a_target_outside_the_root_is_noticed() {
    assert!(inside_root("/data/plugins/a", "/data/plugins"));
    assert!(!inside_root("/etc", "/data/plugins"));
    assert!(!inside_root("/data/plugins2/a", "/data/plugins"));
    assert!(!inside_root("/data/plugins", "/data/plugins"), "the root itself is no item");
    assert!(!inside_root("/data/plugins/a/b", "/data/plugins"), "nor is what an item holds");
}

#[test]
fn a_named_item_is_updated_whatever_is_there() {
    let names = vec!["clock".to_owned()];
    assert_eq!(
        update_targets("/data/plugins", Some("gone"), &names, &vec![true]),
        vec!["/data/plugins/gone"]
    );
}

#[test]
fn an_update_of_everything_takes_the_checkouts_in_order() {
    let names = vec!["b".to_owned(), "loose".to_owned(), "a".to_owned()];
    assert_eq!(
        update_targets("/data/plugins", None, &names, &vec![true, false, true]),
        vec!["/data/plugins/b", "/data/plugins/a"]
    );
    assert!(update_targets("/data/plugins", None, &Vec::new(), &Vec::new()).is_empty());
}

#[test]
fn only_a_checkout_is_pulled() {
    assert_eq!(pull_command(true).unwrap(), vec!["pull", "--ff-only"]);
    assert_eq!(pull_command(false), None);
}

#[test]
fn one_failed_update_does_not_stop_the_rest() {
    let results = vec![
        UpdateResult::Failed("/p/broken".to_owned(), "git pull failed".to_owned()),
        UpdateResult::Skipped("/p/loose".to_owned()),
        UpdateResult::Pulled("/p/clock".to_owned(), "From x\nAlready up to date.\n".to_owned()),
    ];
    let (lines, verdict) = update_report(&results);
    assert_eq!(
        lines,
        vec![
            "broken: failed\n  git pull failed",
            "loose: not a git checkout, skipping",
            "clock: Already up to date.",
        ]
    );
    assert_eq!(verdict.unwrap_err(), "1 item(s) failed to update");
    assert_eq!(update_line(&results[1]), lines[1]);
    assert_eq!(update_report(&vec![UpdateResult::Skipped("/p/loose".to_owned())]).1, Ok(()));
}

#[test]
fn an_empty_round_of_updates_says_so() {
    assert_eq!(update_report(&Vec::new()), (vec!["nothing to update".to_owned()], Ok(())));
}

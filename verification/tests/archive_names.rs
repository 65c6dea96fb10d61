use pythonbuild::names::{install_only_filename, install_only_stripped_filename};

#[test]
fn install_only_name_of_a_full_archive() {
    assert_eq!(
        install_only_filename("cpython-3.12.4-x86_64-unknown-linux-gnu-pgo+lto-20240722T0909.tar.zst"),
        "cpython-3.12.4-x86_64-unknown-linux-gnu-install_only-20240722T0909.tar.gz"
    );
}

#[test]
fn install_only_name_of_a_free_threaded_archive() {
    assert_eq!(
        install_only_filename("cpython-3.13.0-aarch64-apple-darwin-freethreaded+pgo+lto-20241008T1200.tar.zst"),
        "cpython-3.13.0-aarch64-apple-darwin-freethreaded-install_only-20241008T1200.tar.gz"
    );
}

#[test]
fn install_only_name_with_a_single_dash() {
    assert_eq!(install_only_filename("pgo-x.tar.zst"), "install_only-x.tar.gz");
}

#[test]
fn install_only_name_replaces_every_zst_extension() {
    assert_eq!(
        install_only_filename("a.tar.zst-lto-b.tar.zst"),
        "a.tar.gz-install_only-b.tar.gz"
    );
}

#[test]
fn stripped_name_of_an_install_only_archive() {
    assert_eq!(
        install_only_stripped_filename("cpython-3.12.4-x86_64_v3-unknown-linux-gnu-install_only-20240722T0909.tar.gz"),
        "cpython-3.12.4-x86_64_v3-unknown-linux-gnu-install_only_stripped-20240722T0909.tar.gz"
    );
}

#[test]
fn stripped_name_of_a_free_threaded_install_only_archive() {
    assert_eq!(
        install_only_stripped_filename(
            "cpython-3.13.0-x86_64-unknown-linux-gnu-freethreaded-install_only-20241008T1200.tar.gz"
        ),
        "cpython-3.13.0-x86_64-unknown-linux-gnu-freethreaded-install_only_stripped-20241008T1200.tar.gz"
    );
}

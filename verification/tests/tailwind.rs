use paxhtml::tailwind::{
    Arch, Invocation, Os, ProcessOutput, Tailwind, TailwindError, RECOMMENDED_VERSION,
};

fn strings(items: &[&str]) -> Vec<String> {
    items.iter().map(|s| String::from(*s)).collect()
}

#[test]
fn global_tool() {
    assert_eq!(Tailwind::global(), Tailwind::Global);
    assert_eq!(RECOMMENDED_VERSION, "4.1.11");
}

#[test]
fn local_file_names() {
    assert_eq!(Tailwind::local_name(true), "tailwind.exe");
    assert_eq!(Tailwind::local_name(false), "tailwind");
}

#[test]
fn download_urls() {
    let base = "https://github.com/tailwindlabs/tailwindcss/releases/download/v4.1.11/";
    let cases = [
        (Os::Windows, Arch::X86_64, "tailwindcss-windows-x64.exe"),
        (Os::MacOs, Arch::Aarch64, "tailwindcss-macos-arm64"),
        (Os::MacOs, Arch::X86_64, "tailwindcss-macos-x64"),
        (Os::Linux, Arch::Aarch64, "tailwindcss-linux-arm64"),
        (Os::Linux, Arch::X86_64, "tailwindcss-linux-x64"),
    ];
    for (os, arch, name) in cases {
        assert_eq!(
            Tailwind::download_url("4.1.11", os, arch),
            Ok(format!("{}{}", base, name))
        );
    }
    for (os, arch) in [
        (Os::Windows, Arch::Aarch64),
        (Os::Windows, Arch::Other),
        (Os::Linux, Arch::Other),
        (Os::Other, Arch::X86_64),
    ] {
        assert_eq!(
            Tailwind::download_url("4.1.11", os, arch),
            Err(TailwindError::UnsupportedPlatform)
        );
    }
}

#[test]
fn version_is_read_from_the_first_line() {
    assert_eq!(Tailwind::has_version("≈ tailwindcss v4.1.11\n\nUsage:", "4.1.11"), Ok(true));
    assert_eq!(Tailwind::has_version("tailwindcss v4.1.11\r\nv9", "4.1.11"), Ok(true));
    assert_eq!(Tailwind::has_version("tailwindcss v4.1.1\nv4.1.11", "4.1.11"), Ok(false));
    assert_eq!(Tailwind::has_version("v4.1.11", "4.1.11"), Ok(true));
    assert_eq!(Tailwind::has_version("v4.1.110", "4.1.11"), Ok(true));
    assert_eq!(Tailwind::has_version("4.1.11", "4.1.11"), Ok(false));
    assert_eq!(Tailwind::has_version("v4", "4.1.11"), Ok(false));
    assert_eq!(Tailwind::has_version("\nv4.1.11", "4.1.11"), Ok(false));
    assert_eq!(Tailwind::has_version("a v\r\n", ""), Ok(true));
    assert_eq!(Tailwind::has_version("", "4.1.11"), Err(TailwindError::VersionRead));
}

#[test]
fn calls_of_the_tool() {
    let local = Tailwind::Local(String::from("./tailwind"));
    assert_eq!(
        local.run_with_args(strings(&["--help"]), false),
        Invocation { program: String::from("./tailwind"), is_path: true, args: strings(&["--help"]) }
    );
    assert_eq!(
        local.generate_from_file("in.css", true),
        Invocation {
            program: String::from("./tailwind"),
            is_path: true,
            args: strings(&["--input", "in.css", "--output", "-"]),
        }
    );
    assert_eq!(
        Tailwind::global().generate_from_file("in.css", false),
        Invocation {
            program: String::from("sh"),
            is_path: false,
            args: strings(&["-c", "tailwindcss --input in.css --output -"]),
        }
    );
    assert_eq!(
        Tailwind::global().run_with_args(strings(&["-v"]), true),
        Invocation {
            program: String::from("cmd"),
            is_path: false,
            args: strings(&["/C", "tailwindcss -v"]),
        }
    );
    assert_eq!(
        Tailwind::global().run_with_args(vec![], false),
        Invocation {
            program: String::from("sh"),
            is_path: false,
            args: strings(&["-c", "tailwindcss "]),
        }
    );
}

#[test]
fn output_of_the_tool() {
    let output = |success: bool, exit_code: Option<i32>| ProcessOutput {
        success,
        exit_code,
        stdout: String::from("css"),
        stderr: String::from("warnings"),
    };
    assert_eq!(Tailwind::read_output(output(true, Some(0))), Ok(String::from("css")));
    assert_eq!(
        Tailwind::read_output(output(false, Some(2))),
        Err(TailwindError::ProcessExecution {
            stdout: String::from("css"),
            stderr: String::from("warnings"),
            exit_code: Some(2),
        })
    );
    assert_eq!(
        Tailwind::read_output(output(false, None)),
        Err(TailwindError::ProcessExecution {
            stdout: String::from("css"),
            stderr: String::from("warnings"),
            exit_code: None,
        })
    );
}

#[test]
fn tailwind_error_messages() {
    assert_eq!(TailwindError::Io(String::from("gone")).message(), "IO error: gone");
    assert_eq!(
        TailwindError::Utf8(String::from("bad byte")).message(),
        "UTF-8 conversion error: bad byte"
    );
    assert_eq!(
        TailwindError::ProcessExecution {
            stdout: String::from("out"),
            stderr: String::from("err"),
            exit_code: Some(-3),
        }
        .message(),
        "Process execution failed (exit code: Some(-3)): stdout: out, stderr: err"
    );
    assert_eq!(
        TailwindError::ProcessExecution {
            stdout: String::new(),
            stderr: String::new(),
            exit_code: None,
        }
        .message(),
        "Process execution failed (exit code: None): stdout: , stderr: "
    );
    assert_eq!(TailwindError::VersionRead.message(), "Failed to read tailwind version");
    assert_eq!(TailwindError::UnsupportedPlatform.message(), "Unsupported platform");
    assert_eq!(
        TailwindError::DownloadFailed { error: String::from("offline") }.message(),
        "Download failed: offline"
    );
    assert_eq!(
        TailwindError::ExecutionFailed(String::from("why")).message(),
        "Execution failed: why"
    );
}

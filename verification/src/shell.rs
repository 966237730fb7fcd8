//! Shell-integration script generation.
//!
//! Each supported shell gets a small function `gn` that runs the navigator
//! and changes into the directory it prints. The shell name is matched
//! after ASCII lowercasing; an unsupported name yields nothing.

use vstd::prelude::*;
use crate::text::{lower_ascii, spec_lower, str_eq};

verus! {

/// The integration script for zsh.
pub open spec fn spec_zsh_script() -> Seq<char> {
    r#"# gitnav shell integration for zsh
# Add this to your ~/.zshrc:
#   eval "$(gitnav --init zsh)"

gn() {
  local result
  result=$(gitnav "$@")

  if [[ -n "$result" ]] && [[ -d "$result" ]]; then
    cd "$result" || return 1

    # Optional: show a quick listing after cd
    if command -v eza &> /dev/null; then
      eza -l
    elif command -v ls &> /dev/null; then
      ls -la
    fi
  fi
}
"#@
}

/// The integration script for bash.
pub open spec fn spec_bash_script() -> Seq<char> {
    r#"# gitnav shell integration for bash
# Add this to your ~/.bashrc:
#   eval "$(gitnav --init bash)"

gn() {
  local result
  result=$(gitnav "$@")

  if [[ -n "$result" ]] && [[ -d "$result" ]]; then
    cd "$result" || return 1

    # Optional: show a quick listing after cd
    if command -v eza &> /dev/null; then
      eza -l
    elif command -v ls &> /dev/null; then
      ls -la
    fi
  fi
}
"#@
}

/// The integration script for fish.
pub open spec fn spec_fish_script() -> Seq<char> {
    r#"# gitnav shell integration for fish
# Add this to your ~/.config/fish/config.fish:
#   gitnav --init fish | source

function gn
  set result (gitnav $argv)

  if test -n "$result" -a -d "$result"
    cd "$result"; or return 1

    # Optional: show a quick listing after cd
    if command -v eza &> /dev/null
      eza -l
    else if command -v ls &> /dev/null
      ls -la
    end
  end
end
"#@
}

/// The integration script for nushell.
pub open spec fn spec_nushell_script() -> Seq<char> {
    r#"# gitnav shell integration for nushell
# Add this to your nushell config (typically ~/.config/nushell/config.nu):
#   gitnav --init nu | save --force ~/.cache/gitnav/init.nu
#   source ~/.cache/gitnav/init.nu
# Or add directly:
#   source (gitnav --init nu | str trim)

def --env gn [...args] {
  let result = (gitnav ...$args | str trim)

  if ($result != "") and ($result | path exists) {
    cd $result

    # Optional: show a quick listing after cd
    if (which eza | length) > 0 {
      eza -l
    } else if (which ls | length) > 0 {
      ls
    }
  }
}
"#@
}

fn generate_zsh_script() -> (r: String)
    ensures
        r@ == spec_zsh_script(),
{
    r#"# gitnav shell integration for zsh
# Add this to your ~/.zshrc:
#   eval "$(gitnav --init zsh)"

gn() {
  local result
  result=$(gitnav "$@")

  if [[ -n "$result" ]] && [[ -d "$result" ]]; then
    cd "$result" || return 1

    # Optional: show a quick listing after cd
    if command -v eza &> /dev/null; then
      eza -l
    elif command -v ls &> /dev/null; then
      ls -la
    fi
  fi
}
"#.to_owned()
}

fn generate_bash_script() -> (r: String)
    ensures
        r@ == spec_bash_script(),
{
    r#"# gitnav shell integration for bash
# Add this to your ~/.bashrc:
#   eval "$(gitnav --init bash)"

gn() {
  local result
  result=$(gitnav "$@")

  if [[ -n "$result" ]] && [[ -d "$result" ]]; then
    cd "$result" || return 1

    # Optional: show a quick listing after cd
    if command -v eza &> /dev/null; then
      eza -l
    elif command -v ls &> /dev/null; then
      ls -la
    fi
  fi
}
"#.to_owned()
}

fn generate_fish_script() -> (r: String)
    ensures
        r@ == spec_fish_script(),
{
    r#"# gitnav shell integration for fish
# Add this to your ~/.config/fish/config.fish:
#   gitnav --init fish | source

function gn
  set result (gitnav $argv)

  if test -n "$result" -a -d "$result"
    cd "$result"; or return 1

    # Optional: show a quick listing after cd
    if command -v eza &> /dev/null
      eza -l
    else if command -v ls &> /dev/null
      ls -la
    end
  end
end
"#.to_owned()
}

fn generate_nushell_script() -> (r: String)
    ensures
        r@ == spec_nushell_script(),
{
    r#"# gitnav shell integration for nushell
# Add this to your nushell config (typically ~/.config/nushell/config.nu):
#   gitnav --init nu | save --force ~/.cache/gitnav/init.nu
#   source ~/.cache/gitnav/init.nu
# Or add directly:
#   source (gitnav --init nu | str trim)

def --env gn [...args] {
  let result = (gitnav ...$args | str trim)

  if ($result != "") and ($result | path exists) {
    cd $result

    # Optional: show a quick listing after cd
    if (which eza | length) > 0 {
      eza -l
    } else if (which ls | length) > 0 {
      ls
    }
  }
}
"#.to_owned()
}

/// Generates the shell initialization script for the given shell, matched
/// after ASCII lowercasing; an unsupported shell yields None.
pub fn generate_init_script(shell: &str) -> (r: Option<String>)
    ensures
        spec_lower(shell@) == "zsh"@ ==> (r matches Some(s) && s@ == spec_zsh_script()),
        spec_lower(shell@) == "bash"@ ==> (r matches Some(s) && s@ == spec_bash_script()),
        spec_lower(shell@) == "fish"@ ==> (r matches Some(s) && s@ == spec_fish_script()),
        spec_lower(shell@) == "nu"@ || spec_lower(shell@) == "nushell"@ ==> (r matches Some(s)
            && s@ == spec_nushell_script()),
        spec_lower(shell@) != "zsh"@ && spec_lower(shell@) != "bash"@ && spec_lower(shell@)
            != "fish"@ && spec_lower(shell@) != "nu"@ && spec_lower(shell@) != "nushell"@ ==> r
            is None,
    {
    proof {
        reveal_strlit("zsh");
        reveal_strlit("bash");
        reveal_strlit("fish");
        reveal_strlit("nu");
        reveal_strlit("nushell");
        assert("zsh"@.len() == 3);
        assert("bash"@.len() == 4);
        assert("fish"@.len() == 4);
        assert("nu"@.len() == 2);
        assert("nushell"@.len() == 7);
        assert("bash"@[0] == 'b' && "fish"@[0] == 'f');
    }
    let low = lower_ascii(shell);
    if str_eq(low.as_str(), "zsh") {
        Some(generate_zsh_script())
    } else if str_eq(low.as_str(), "bash") {
        Some(generate_bash_script())
    } else if str_eq(low.as_str(), "fish") {
        Some(generate_fish_script())
    } else if str_eq(low.as_str(), "nu") {
        Some(generate_nushell_script())
    } else if str_eq(low.as_str(), "nushell") {
        Some(generate_nushell_script())
    } else {
        None
    }
}

} // verus!

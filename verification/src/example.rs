//! An example configuration, for a user to start from.
use vstd::prelude::*;
use vstd::string::StringSliceAdditionalSpecFns;

verus! {

/// The text of the example configuration.
pub const EXAMPLE_CONFIG: &'static str = "{
  // The tags to look for. Upper and lower case are the same.
  \"tags\": [
    \"todo\",
    \"fixme\"
  ],

  // Paths to pass over, as in a .gitignore file.
  \"ignore\": [
    \"target/\"
  ],

  // The extension whose comments are tried on files of an unknown kind.
  \"default_ext\": \"sh\",

  // Comment types for file extensions. An entry for an extension takes the
  // place of the built-in one.
  \"comments\": [
    {
      \"ext\": \"rs\",
      \"types\": [
        { \"single\": \"//\" },
        { \"prefix\": \"/*\", \"suffix\": \"*/\" }
      ]
    },
    {
      \"exts\": [\"py\", \"rb\"],
      \"types\": [
        { \"single\": \"#\" }
      ]
    }
  ],

  // Styles are a colour name or number, with b_, i_ or u_ in front for bold,
  // italic or underlined text.
  \"styles\": {
    \"filepath\": \"u_white\",
    \"tag\": \"green\",
    \"content\": \"cyan\",
    \"line_number\": 8,
    \"user\": 8,
    \"tags\": {
      \"fixme\": \"b_red\"
    }
  }
}
";

/// Writes the example configuration to the end of `out_buffer`.
pub fn write_example_config(out_buffer: &mut Vec<u8>)
    ensures
        final(out_buffer)@ == old(out_buffer)@ + EXAMPLE_CONFIG.spec_bytes(),
{
    out_buffer.extend_from_slice(EXAMPLE_CONFIG.as_bytes());
    assert(out_buffer@ =~= old(out_buffer)@ + EXAMPLE_CONFIG.spec_bytes());
}

} // verus!

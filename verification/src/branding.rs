//! The product's name, tagline and logo shown by the shell.
use vstd::prelude::*;

verus! {

/// What the startup screen and the bars say about the product.
#[derive(Debug, Clone, PartialEq, Eq)]
pub struct BrandingConfig {
    pub product_name: String,
    pub tagline: String,
    pub ascii_logo: String,
    pub startup_hint: String,
    pub footer_hint: String,
}

pub open spec fn default_logo() -> Seq<char> {
    " ██████╗ ███████╗██╗   ██╗████████╗██╗  ██╗███╗   ███╗\n██╔════╝ ██╔════╝╚██╗ ██╔╝╚══██╔══╝██║  ██║████╗ ████║\n╚█████╗  █████╗   ╚████╔╝    ██║   ███████║██╔████╔██║\n ╚═══██╗ ██╔══╝    ╚██╔╝     ██║   ██╔══██║██║╚██╔╝██║\n██████╔╝ ███████╗   ██║      ██║   ██║  ██║██║ ╚═╝ ██║\n╚═════╝  ╚══════╝   ╚═╝      ╚═╝   ╚═╝  ╚═╝╚═╝     ╚═╝"@
}

impl Default for BrandingConfig {
    /// The branding used when the bundled brand file cannot be read.
    fn default() -> (b: Self)
        ensures
            b.product_name@ == "Seythm"@,
            b.tagline@ == "terminal rhythm alpha"@,
            b.ascii_logo@ == default_logo(),
            b.startup_hint@ == "Press any key to skip startup."@,
            b.footer_hint@ == "alpha shell rhythm preview"@,
    {
        BrandingConfig {
            product_name: "Seythm".to_owned(),
            tagline: "terminal rhythm alpha".to_owned(),
            ascii_logo: " ██████╗ ███████╗██╗   ██╗████████╗██╗  ██╗███╗   ███╗\n██╔════╝ ██╔════╝╚██╗ ██╔╝╚══██╔══╝██║  ██║████╗ ████║\n╚█████╗  █████╗   ╚████╔╝    ██║   ███████║██╔████╔██║\n ╚═══██╗ ██╔══╝    ╚██╔╝     ██║   ██╔══██║██║╚██╔╝██║\n██████╔╝ ███████╗   ██║      ██║   ██║  ██║██║ ╚═╝ ██║\n╚═════╝  ╚══════╝   ╚═╝      ╚═╝   ╚═╝  ╚═╝╚═╝     ╚═╝".to_owned(),
            startup_hint: "Press any key to skip startup.".to_owned(),
            footer_hint: "alpha shell rhythm preview".to_owned(),
        }
    }
}

} // verus!

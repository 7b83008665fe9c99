//! The fixed text of the Open Graph card SVG templates, cut at their holes.
//! A template `T` with `n` holes is `T_0`, hole 1, `T_1`, ..., hole `n`, `T_n`.

use vstd::prelude::*;

verus! {
/// Holes, in order: `badge_x`, `badge_width`, `badge_center`, `badge_text`.
pub const BADGE_0: &'static str = "<g transform=\"translate(";
pub const BADGE_1: &'static str = ", 150)\">\n                    <rect width=\"";
pub const BADGE_2: &'static str = "\" height=\"77\" rx=\"38.5\" fill=\"#ECBF7F\"/>\n                    <text x=\"";
pub const BADGE_3: &'static str = "\" y=\"48\" font-family=\"Public Sans\" font-size=\"28\" font-weight=\"800\" fill=\"#242828\" text-anchor=\"middle\" dominant-baseline=\"central\">";
pub const BADGE_4: &'static str = "</text>\n                </g>";

/// Holes, in order: `t_text`, `safe_sub1`, `sub2_text`.
pub const CARD_TWO_SUB_0: &'static str = "<text x=\"150\" y=\"320\" font-family=\"Paytone One\" font-size=\"56\" font-weight=\"400\" fill=\"#F9F5E5\">";
pub const CARD_TWO_SUB_1: &'static str = "</text>\n               <text x=\"150\" y=\"385\" font-family=\"Public Sans\" font-size=\"40\" font-weight=\"600\" fill=\"#F9F5E5\">";
pub const CARD_TWO_SUB_2: &'static str = "</text>\n               <text x=\"150\" y=\"445\" font-family=\"Public Sans\" font-size=\"40\" font-weight=\"600\" fill=\"#F9F5E5\">";
pub const CARD_TWO_SUB_3: &'static str = "</text>";

/// Holes, in order: `t_text`, `line1`, `line2`.
pub const CARD_WRAPPED_0: &'static str = "<text x=\"150\" y=\"325\" font-family=\"Paytone One\" font-size=\"62\" font-weight=\"400\" fill=\"#F9F5E5\">";
pub const CARD_WRAPPED_1: &'static str = "</text>\n                       <text x=\"150\" y=\"395\" font-family=\"Public Sans\" font-size=\"38\" font-weight=\"600\" fill=\"#F9F5E5\">";
pub const CARD_WRAPPED_2: &'static str = "</text>\n                       <text x=\"150\" y=\"450\" font-family=\"Public Sans\" font-size=\"38\" font-weight=\"600\" fill=\"#F9F5E5\">";
pub const CARD_WRAPPED_3: &'static str = "</text>";

/// Holes, in order: `t_text`, `safe_sub1`.
pub const CARD_TITLED_0: &'static str = "<text x=\"150\" y=\"335\" font-family=\"Paytone One\" font-size=\"64\" font-weight=\"400\" fill=\"#F9F5E5\">";
pub const CARD_TITLED_1: &'static str = "</text>\n                       <text x=\"150\" y=\"415\" font-family=\"Public Sans\" font-size=\"42\" font-weight=\"600\" fill=\"#F9F5E5\">";
pub const CARD_TITLED_2: &'static str = "</text>";

/// Holes, in order: `safe_sub1`.
pub const CARD_PLAIN_0: &'static str = "<text x=\"150\" y=\"360\" font-family=\"Public Sans\" font-size=\"44\" font-weight=\"600\" fill=\"#F9F5E5\">";
pub const CARD_PLAIN_1: &'static str = "</text>";

/// Holes, in order: `badge_svg`, `content_svg`.
pub const CARD_PAGE_0: &'static str = "<svg width=\"1200\" height=\"630\" viewBox=\"0 0 1200 630\" xmlns=\"http://www.w3.org/2000/svg\" xmlns:xlink=\"http://www.w3.org/1999/xlink\">\n  <defs>\n    <radialGradient id=\"glow\" cx=\"50%\" cy=\"50%\" r=\"50%\">\n      <stop offset=\"0%\" stop-color=\"#ECBF7F\" stop-opacity=\"0.25\"/>\n      <stop offset=\"100%\" stop-color=\"#ECBF7F\" stop-opacity=\"0\"/>\n    </radialGradient>\n  </defs>\n\n  <!-- Arka Plan -->\n  <rect width=\"1200\" height=\"630\" fill=\"#242828\"/>\n  <rect width=\"1200\" height=\"630\" fill=\"url(#glow)\"/>\n\n  <!-- Kepçe Logosu (Vektör) -->\n  <g transform=\"translate(150, 150) scale(1.15)\" fill=\"#F9F5E5\">\n    <path d=\"M0 54V21h11.1v13.1h3.4L21 21h12L24.2 37.4 34.2 54H21.5L14.4 41.3H11.1V54H0z\"/>\n    <path d=\"M49.3 47.7c.9 0 1.9-.1 2.9-.3 1.1-.2 2.1-.5 3.2-1l1.2 6.1c-1.2.6-2.5 1.1-3.9 1.4-1.4.3-3 .5-4.8.5-3.2 0-6-.5-8.2-1.6-2.2-1-3.8-2.5-5-4.4-1.1-1.9-1.7-4-1.7-6.4 0-2.5.6-4.7 1.8-6.5 1.2-1.9 2.8-3.3 4.8-4.3 2-1 4.3-1.6 6.7-1.6 3.6 0 6.4 1.1 8.3 3.4 1.9 2.2 2.9 5.4 2.9 9.6l-14.3 1.8c1 2.2 3 3.3 6 3.3zm-6.7-7.6l7.5-1.6c-.1-1-.5-1.8-1-2.3-.6-.5-1.3-.8-2.2-.8-1.3 0-2.3.4-3.1 1.3-.7.9-1.1 2-1.2 3.4z\"/>\n    <path d=\"M71.1 61.6l-10.1 1.5V30h10v5.2c.8-2 2-3.4 3.4-4.3 1.4-.9 3-1.3 4.5-1.3 2.2 0 4.2.5 6 1.6 1.8 1 3.2 2.4 4.2 4.3 1.1 1.8 1.6 4 1.6 6.4 0 2.4-.5 4.6-1.6 6.5-1 1.9-2.4 3.4-4.2 4.5-1.8 1.1-3.8 1.6-6 1.6-1.9 0-3.5-.4-4.8-1.2-1.3-.8-2.3-2-3-3.6v12zm4.7-14.8c1.4 0 2.5-.5 3.5-1.4.9-.9 1.4-2 1.4-3.4s-.5-2.5-1.4-3.4c-.9-.9-2-1.4-3.5-1.4-1.3 0-2.4.5-3.3 1.3-.9.9-1.4 2-1.4 3.4s.5 2.5 1.4 3.5c1 .9 2.1 1.4 3.3 1.4z\"/>\n    <path d=\"M106.2 54.4c-2.7 0-5-.5-7-1.6-1.9-1-3.4-2.5-4.5-4.3-1-1.9-1.6-4-1.6-6.4 0-2.4.6-4.5 1.7-6.4 1.1-1.9 2.6-3.4 4.5-4.5 2-1.1 4.3-1.6 6.9-1.6 3.1 0 5.5.6 7.3 1.9l-1.1 6.5c-.8-.3-1.6-.6-2.3-.7-.7-.2-1.4-.2-2-.2-1.6 0-2.8.4-3.7 1.3-.9.9-1.3 2-1.3 3.5 0 1.5.4 2.7 1.3 3.6.9.9 2.1 1.3 3.6 1.3 1.3 0 2.8-.3 4.5-.8l.9 6.7c-1 .5-2.1.9-3.3 1.2-1.1.1-2.4.3-3.9.3zm-2.6 11.5c-.7 0-1.5-.1-2.3-.2-.8-.1-1.5-.3-2.1-.6v-2.7c.4.1.9.2 1.2.3.4.1.8.1 1.1.1.8 0 1.5-.2 2-.6.5-.4.8-1 .8-1.7 0-.6-.3-1.1-.8-1.5-.5-.4-1.2-.6-2-.7l1.9-5.6h3.6l-1.2 3.6c1.6.4 2.7 1 3.3 1.7.7.8 1 1.7 1 2.8 0 1.6-.6 2.8-1.8 3.7-1.2 1-2.8 1.4-4.8 1.4z\"/>\n    <path d=\"M143 39.7c.7 7.7-4.6 14-12.2 14.8-7.6.8-14.7-3.8-15.4-11.5l20-4.7L133 8.4c-.4-3.8 3.4-8.7 9-8.1 4.2.4 7 4.5 7.3 8.3l-4.6.5c-.1-1.3-1.2-2.2-2.5-2.1s-2.2 1.3-2.1 2.5l2.9 30.2z\"/>\n  </g>\n\n  <!-- Rozet -->\n  ";
pub const CARD_PAGE_1: &'static str = "\n\n  <!-- İçerik Metinleri -->\n  ";
pub const CARD_PAGE_2: &'static str = "\n</svg>";

/// Holes, in order: `b64`, `safe_user`, `safe_karma`.
pub const PROFILE_AVATAR_0: &'static str = "<g transform=\"translate(150, 275)\">\n                <defs>\n                  <clipPath id=\"avatar-clip\">\n                    <circle cx=\"80\" cy=\"80\" r=\"80\"/>\n                  </clipPath>\n                  <filter id=\"avatar-shadow\" x=\"-20%\" y=\"-20%\" width=\"140%\" height=\"140%\">\n                    <feDropShadow dx=\"0\" dy=\"12\" stdDeviation=\"18\" flood-color=\"#000000\" flood-opacity=\"0.5\"/>\n                  </filter>\n                </defs>\n                <circle cx=\"80\" cy=\"80\" r=\"80\" fill=\"#303535\" filter=\"url(#avatar-shadow)\"/>\n                <image href=\"data:image/jpeg;base64,";
pub const PROFILE_AVATAR_1: &'static str = "\" width=\"160\" height=\"160\" clip-path=\"url(#avatar-clip)\" preserveAspectRatio=\"xMidYMid slice\"/>\n                \n                <text x=\"205\" y=\"65\" font-family=\"Paytone One\" font-size=\"56\" font-weight=\"400\" fill=\"#F9F5E5\">";
pub const PROFILE_AVATAR_2: &'static str = "</text>\n                <text x=\"205\" y=\"125\" font-family=\"Public Sans\" font-size=\"38\" font-weight=\"600\" fill=\"#F9F5E5\">";
pub const PROFILE_AVATAR_3: &'static str = "</text>\n              </g>";

/// Holes, in order: `safe_user`, `safe_karma`.
pub const PROFILE_PLAIN_0: &'static str = "<text x=\"150\" y=\"335\" font-family=\"Paytone One\" font-size=\"64\" font-weight=\"400\" fill=\"#F9F5E5\">";
pub const PROFILE_PLAIN_1: &'static str = "</text>\n               <text x=\"150\" y=\"415\" font-family=\"Public Sans\" font-size=\"42\" font-weight=\"600\" fill=\"#F9F5E5\">";
pub const PROFILE_PLAIN_2: &'static str = "</text>";

/// Holes, in order: `badge_x`, `badge_width`, `badge_center`, `safe_badge`, `body_svg`.
pub const PROFILE_PAGE_0: &'static str = "<svg width=\"1200\" height=\"630\" viewBox=\"0 0 1200 630\" xmlns=\"http://www.w3.org/2000/svg\" xmlns:xlink=\"http://www.w3.org/1999/xlink\">\n  <defs>\n    <radialGradient id=\"glow\" cx=\"50%\" cy=\"50%\" r=\"50%\">\n      <stop offset=\"0%\" stop-color=\"#ECBF7F\" stop-opacity=\"0.25\"/>\n      <stop offset=\"100%\" stop-color=\"#ECBF7F\" stop-opacity=\"0\"/>\n    </radialGradient>\n  </defs>\n\n  <rect width=\"1200\" height=\"630\" fill=\"#242828\"/>\n  <rect width=\"1200\" height=\"630\" fill=\"url(#glow)\"/>\n\n  <!-- Kepçe Logosu (Vektör) -->\n  <g transform=\"translate(150, 150) scale(1.15)\" fill=\"#F9F5E5\">\n    <path d=\"M0 54V21h11.1v13.1h3.4L21 21h12L24.2 37.4 34.2 54H21.5L14.4 41.3H11.1V54H0z\"/>\n    <path d=\"M49.3 47.7c.9 0 1.9-.1 2.9-.3 1.1-.2 2.1-.5 3.2-1l1.2 6.1c-1.2.6-2.5 1.1-3.9 1.4-1.4.3-3 .5-4.8.5-3.2 0-6-.5-8.2-1.6-2.2-1-3.8-2.5-5-4.4-1.1-1.9-1.7-4-1.7-6.4 0-2.5.6-4.7 1.8-6.5 1.2-1.9 2.8-3.3 4.8-4.3 2-1 4.3-1.6 6.7-1.6 3.6 0 6.4 1.1 8.3 3.4 1.9 2.2 2.9 5.4 2.9 9.6l-14.3 1.8c1 2.2 3 3.3 6 3.3zm-6.7-7.6l7.5-1.6c-.1-1-.5-1.8-1-2.3-.6-.5-1.3-.8-2.2-.8-1.3 0-2.3.4-3.1 1.3-.7.9-1.1 2-1.2 3.4z\"/>\n    <path d=\"M71.1 61.6l-10.1 1.5V30h10v5.2c.8-2 2-3.4 3.4-4.3 1.4-.9 3-1.3 4.5-1.3 2.2 0 4.2.5 6 1.6 1.8 1 3.2 2.4 4.2 4.3 1.1 1.8 1.6 4 1.6 6.4 0 2.4-.5 4.6-1.6 6.5-1 1.9-2.4 3.4-4.2 4.5-1.8 1.1-3.8 1.6-6 1.6-1.9 0-3.5-.4-4.8-1.2-1.3-.8-2.3-2-3-3.6v12zm4.7-14.8c1.4 0 2.5-.5 3.5-1.4.9-.9 1.4-2 1.4-3.4s-.5-2.5-1.4-3.4c-.9-.9-2-1.4-3.5-1.4-1.3 0-2.4.5-3.3 1.3-.9.9-1.4 2-1.4 3.4s.5 2.5 1.4 3.5c1 .9 2.1 1.4 3.3 1.4z\"/>\n    <path d=\"M106.2 54.4c-2.7 0-5-.5-7-1.6-1.9-1-3.4-2.5-4.5-4.3-1-1.9-1.6-4-1.6-6.4 0-2.4.6-4.5 1.7-6.4 1.1-1.9 2.6-3.4 4.5-4.5 2-1.1 4.3-1.6 6.9-1.6 3.1 0 5.5.6 7.3 1.9l-1.1 6.5c-.8-.3-1.6-.6-2.3-.7-.7-.2-1.4-.2-2-.2-1.6 0-2.8.4-3.7 1.3-.9.9-1.3 2-1.3 3.5 0 1.5.4 2.7 1.3 3.6.9.9 2.1 1.3 3.6 1.3 1.3 0 2.8-.3 4.5-.8l.9 6.7c-1 .5-2.1.9-3.3 1.2-1.1.1-2.4.3-3.9.3zm-2.6 11.5c-.7 0-1.5-.1-2.3-.2-.8-.1-1.5-.3-2.1-.6v-2.7c.4.1.9.2 1.2.3.4.1.8.1 1.1.1.8 0 1.5-.2 2-.6.5-.4.8-1 .8-1.7 0-.6-.3-1.1-.8-1.5-.5-.4-1.2-.6-2-.7l1.9-5.6h3.6l-1.2 3.6c1.6.4 2.7 1 3.3 1.7.7.8 1 1.7 1 2.8 0 1.6-.6 2.8-1.8 3.7-1.2 1-2.8 1.4-4.8 1.4z\"/>\n    <path d=\"M143 39.7c.7 7.7-4.6 14-12.2 14.8-7.6.8-14.7-3.8-15.4-11.5l20-4.7L133 8.4c-.4-3.8 3.4-8.7 9-8.1 4.2.4 7 4.5 7.3 8.3l-4.6.5c-.1-1.3-1.2-2.2-2.5-2.1s-2.2 1.3-2.1 2.5l2.9 30.2z\"/>\n  </g>\n\n  <g transform=\"translate(";
pub const PROFILE_PAGE_1: &'static str = ", 150)\">\n    <rect width=\"";
pub const PROFILE_PAGE_2: &'static str = "\" height=\"77\" rx=\"38.5\" fill=\"#ECBF7F\"/>\n    <text x=\"";
pub const PROFILE_PAGE_3: &'static str = "\" y=\"48\" font-family=\"Public Sans\" font-size=\"28\" font-weight=\"800\" fill=\"#242828\" text-anchor=\"middle\" dominant-baseline=\"central\">";
pub const PROFILE_PAGE_4: &'static str = "</text>\n  </g>\n\n  ";
pub const PROFILE_PAGE_5: &'static str = "\n</svg>";

} // verus!

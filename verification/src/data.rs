//! The embedded reference dataset: the standard country assignments.
//!
//! This is the tuple sequence that the external data-provisioning
//! collaborator emits once — display name, numeric code, alpha-2 code,
//! alpha-3 code per country. The registry is assembled from it by
//! [`crate::registry::Registry::build`], which validates every tuple;
//! nothing in the library relies on the content of this table beyond
//! what that validation establishes.

use vstd::prelude::*;
use vstd::string::StrSliceExecFns;

use crate::entry::RawEntry;

verus! {

fn row(name: &str, numeric: u16, a2: &str, a3: &str) -> RawEntry {
    RawEntry {
        name: name.to_owned(),
        numeric,
        alpha2: a2.as_bytes_vec(),
        alpha3: a3.as_bytes_vec(),
    }
}

fn rows_a(v: &mut Vec<RawEntry>) {
    v.push(row("Afghanistan", 4, "AF", "AFG"));
    v.push(row("Albania", 8, "AL", "ALB"));
    v.push(row("Antarctica", 10, "AQ", "ATA"));
    v.push(row("Algeria", 12, "DZ", "DZA"));
    v.push(row("American Samoa", 16, "AS", "ASM"));
    v.push(row("Andorra", 20, "AD", "AND"));
    v.push(row("Angola", 24, "AO", "AGO"));
    v.push(row("Antigua and Barbuda", 28, "AG", "ATG"));
    v.push(row("Azerbaijan", 31, "AZ", "AZE"));
    v.push(row("Argentina", 32, "AR", "ARG"));
    v.push(row("Australia", 36, "AU", "AUS"));
    v.push(row("Austria", 40, "AT", "AUT"));
    v.push(row("Bahamas", 44, "BS", "BHS"));
    v.push(row("Bahrain", 48, "BH", "BHR"));
    v.push(row("Bangladesh", 50, "BD", "BGD"));
    v.push(row("Armenia", 51, "AM", "ARM"));
    v.push(row("Barbados", 52, "BB", "BRB"));
    v.push(row("Belgium", 56, "BE", "BEL"));
    v.push(row("Bermuda", 60, "BM", "BMU"));
    v.push(row("Bhutan", 64, "BT", "BTN"));
    v.push(row("Bolivia", 68, "BO", "BOL"));
    v.push(row("Bosnia and Herzegovina", 70, "BA", "BIH"));
    v.push(row("Botswana", 72, "BW", "BWA"));
    v.push(row("Bouvet Island", 74, "BV", "BVT"));
    v.push(row("Brazil", 76, "BR", "BRA"));
    v.push(row("Belize", 84, "BZ", "BLZ"));
    v.push(row("British Indian Ocean Territory", 86, "IO", "IOT"));
    v.push(row("Solomon Islands", 90, "SB", "SLB"));
    v.push(row("British Virgin Islands", 92, "VG", "VGB"));
    v.push(row("Brunei Darussalam", 96, "BN", "BRN"));
    v.push(row("Bulgaria", 100, "BG", "BGR"));
    v.push(row("Myanmar", 104, "MM", "MMR"));
    v.push(row("Burundi", 108, "BI", "BDI"));
    v.push(row("Belarus", 112, "BY", "BLR"));
    v.push(row("Cambodia", 116, "KH", "KHM"));
    v.push(row("Cameroon", 120, "CM", "CMR"));
    v.push(row("Canada", 124, "CA", "CAN"));
    v.push(row("Cabo Verde", 132, "CV", "CPV"));
    v.push(row("Cayman Islands", 136, "KY", "CYM"));
    v.push(row("Central African Republic", 140, "CF", "CAF"));
    v.push(row("Sri Lanka", 144, "LK", "LKA"));
    v.push(row("Chad", 148, "TD", "TCD"));
    v.push(row("Chile", 152, "CL", "CHL"));
    v.push(row("China", 156, "CN", "CHN"));
    v.push(row("Taiwan", 158, "TW", "TWN"));
    v.push(row("Christmas Island", 162, "CX", "CXR"));
    v.push(row("Cocos (Keeling) Islands", 166, "CC", "CCK"));
    v.push(row("Colombia", 170, "CO", "COL"));
    v.push(row("Comoros", 174, "KM", "COM"));
    v.push(row("Mayotte", 175, "YT", "MYT"));
}

fn rows_b(v: &mut Vec<RawEntry>) {
    v.push(row("Congo", 178, "CG", "COG"));
    v.push(row("Democratic Republic of the Congo", 180, "CD", "COD"));
    v.push(row("Cook Islands", 184, "CK", "COK"));
    v.push(row("Costa Rica", 188, "CR", "CRI"));
    v.push(row("Croatia", 191, "HR", "HRV"));
    v.push(row("Cuba", 192, "CU", "CUB"));
    v.push(row("Cyprus", 196, "CY", "CYP"));
    v.push(row("Czechia", 203, "CZ", "CZE"));
    v.push(row("Benin", 204, "BJ", "BEN"));
    v.push(row("Denmark", 208, "DK", "DNK"));
    v.push(row("Dominica", 212, "DM", "DMA"));
    v.push(row("Dominican Republic", 214, "DO", "DOM"));
    v.push(row("Ecuador", 218, "EC", "ECU"));
    v.push(row("El Salvador", 222, "SV", "SLV"));
    v.push(row("Equatorial Guinea", 226, "GQ", "GNQ"));
    v.push(row("Ethiopia", 231, "ET", "ETH"));
    v.push(row("Eritrea", 232, "ER", "ERI"));
    v.push(row("Estonia", 233, "EE", "EST"));
    v.push(row("Faroe Islands", 234, "FO", "FRO"));
    v.push(row("Falkland Islands", 238, "FK", "FLK"));
    v.push(row("South Georgia and the South Sandwich Islands", 239, "GS", "SGS"));
    v.push(row("Fiji", 242, "FJ", "FJI"));
    v.push(row("Finland", 246, "FI", "FIN"));
    v.push(row("Aland Islands", 248, "AX", "ALA"));
    v.push(row("France", 250, "FR", "FRA"));
    v.push(row("French Guiana", 254, "GF", "GUF"));
    v.push(row("French Polynesia", 258, "PF", "PYF"));
    v.push(row("French Southern Territories", 260, "TF", "ATF"));
    v.push(row("Djibouti", 262, "DJ", "DJI"));
    v.push(row("Gabon", 266, "GA", "GAB"));
    v.push(row("Georgia", 268, "GE", "GEO"));
    v.push(row("Gambia", 270, "GM", "GMB"));
    v.push(row("Palestine", 275, "PS", "PSE"));
    v.push(row("Germany", 276, "DE", "DEU"));
    v.push(row("Ghana", 288, "GH", "GHA"));
    v.push(row("Gibraltar", 292, "GI", "GIB"));
    v.push(row("Kiribati", 296, "KI", "KIR"));
    v.push(row("Greece", 300, "GR", "GRC"));
    v.push(row("Greenland", 304, "GL", "GRL"));
    v.push(row("Grenada", 308, "GD", "GRD"));
    v.push(row("Guadeloupe", 312, "GP", "GLP"));
    v.push(row("Guam", 316, "GU", "GUM"));
    v.push(row("Guatemala", 320, "GT", "GTM"));
    v.push(row("Guinea", 324, "GN", "GIN"));
    v.push(row("Guyana", 328, "GY", "GUY"));
    v.push(row("Haiti", 332, "HT", "HTI"));
    v.push(row("Heard Island and McDonald Islands", 334, "HM", "HMD"));
    v.push(row("Holy See", 336, "VA", "VAT"));
    v.push(row("Honduras", 340, "HN", "HND"));
    v.push(row("Hong Kong", 344, "HK", "HKG"));
}

fn rows_c(v: &mut Vec<RawEntry>) {
    v.push(row("Hungary", 348, "HU", "HUN"));
    v.push(row("Iceland", 352, "IS", "ISL"));
    v.push(row("India", 356, "IN", "IND"));
    v.push(row("Indonesia", 360, "ID", "IDN"));
    v.push(row("Iran", 364, "IR", "IRN"));
    v.push(row("Iraq", 368, "IQ", "IRQ"));
    v.push(row("Ireland", 372, "IE", "IRL"));
    v.push(row("Israel", 376, "IL", "ISR"));
    v.push(row("Italy", 380, "IT", "ITA"));
    v.push(row("Cote d'Ivoire", 384, "CI", "CIV"));
    v.push(row("Jamaica", 388, "JM", "JAM"));
    v.push(row("Japan", 392, "JP", "JPN"));
    v.push(row("Kazakhstan", 398, "KZ", "KAZ"));
    v.push(row("Jordan", 400, "JO", "JOR"));
    v.push(row("Kenya", 404, "KE", "KEN"));
    v.push(row("North Korea", 408, "KP", "PRK"));
    v.push(row("South Korea", 410, "KR", "KOR"));
    v.push(row("Kuwait", 414, "KW", "KWT"));
    v.push(row("Kyrgyzstan", 417, "KG", "KGZ"));
    v.push(row("Laos", 418, "LA", "LAO"));
    v.push(row("Lebanon", 422, "LB", "LBN"));
    v.push(row("Lesotho", 426, "LS", "LSO"));
    v.push(row("Latvia", 428, "LV", "LVA"));
    v.push(row("Liberia", 430, "LR", "LBR"));
    v.push(row("Libya", 434, "LY", "LBY"));
    v.push(row("Liechtenstein", 438, "LI", "LIE"));
    v.push(row("Lithuania", 440, "LT", "LTU"));
    v.push(row("Luxembourg", 442, "LU", "LUX"));
    v.push(row("Macao", 446, "MO", "MAC"));
    v.push(row("Madagascar", 450, "MG", "MDG"));
    v.push(row("Malawi", 454, "MW", "MWI"));
    v.push(row("Malaysia", 458, "MY", "MYS"));
    v.push(row("Maldives", 462, "MV", "MDV"));
    v.push(row("Mali", 466, "ML", "MLI"));
    v.push(row("Malta", 470, "MT", "MLT"));
    v.push(row("Martinique", 474, "MQ", "MTQ"));
    v.push(row("Mauritania", 478, "MR", "MRT"));
    v.push(row("Mauritius", 480, "MU", "MUS"));
    v.push(row("Mexico", 484, "MX", "MEX"));
    v.push(row("Monaco", 492, "MC", "MCO"));
    v.push(row("Mongolia", 496, "MN", "MNG"));
    v.push(row("Moldova", 498, "MD", "MDA"));
    v.push(row("Montenegro", 499, "ME", "MNE"));
    v.push(row("Montserrat", 500, "MS", "MSR"));
    v.push(row("Morocco", 504, "MA", "MAR"));
    v.push(row("Mozambique", 508, "MZ", "MOZ"));
    v.push(row("Oman", 512, "OM", "OMN"));
    v.push(row("Namibia", 516, "NA", "NAM"));
    v.push(row("Nauru", 520, "NR", "NRU"));
    v.push(row("Nepal", 524, "NP", "NPL"));
}

fn rows_d(v: &mut Vec<RawEntry>) {
    v.push(row("Netherlands", 528, "NL", "NLD"));
    v.push(row("Curacao", 531, "CW", "CUW"));
    v.push(row("Aruba", 533, "AW", "ABW"));
    v.push(row("Sint Maarten", 534, "SX", "SXM"));
    v.push(row("Bonaire, Sint Eustatius and Saba", 535, "BQ", "BES"));
    v.push(row("New Caledonia", 540, "NC", "NCL"));
    v.push(row("Vanuatu", 548, "VU", "VUT"));
    v.push(row("New Zealand", 554, "NZ", "NZL"));
    v.push(row("Nicaragua", 558, "NI", "NIC"));
    v.push(row("Niger", 562, "NE", "NER"));
    v.push(row("Nigeria", 566, "NG", "NGA"));
    v.push(row("Niue", 570, "NU", "NIU"));
    v.push(row("Norfolk Island", 574, "NF", "NFK"));
    v.push(row("Norway", 578, "NO", "NOR"));
    v.push(row("Northern Mariana Islands", 580, "MP", "MNP"));
    v.push(row("United States Minor Outlying Islands", 581, "UM", "UMI"));
    v.push(row("Micronesia", 583, "FM", "FSM"));
    v.push(row("Marshall Islands", 584, "MH", "MHL"));
    v.push(row("Palau", 585, "PW", "PLW"));
    v.push(row("Pakistan", 586, "PK", "PAK"));
    v.push(row("Panama", 591, "PA", "PAN"));
    v.push(row("Papua New Guinea", 598, "PG", "PNG"));
    v.push(row("Paraguay", 600, "PY", "PRY"));
    v.push(row("Peru", 604, "PE", "PER"));
    v.push(row("Philippines", 608, "PH", "PHL"));
    v.push(row("Pitcairn", 612, "PN", "PCN"));
    v.push(row("Poland", 616, "PL", "POL"));
    v.push(row("Portugal", 620, "PT", "PRT"));
    v.push(row("Guinea-Bissau", 624, "GW", "GNB"));
    v.push(row("Timor-Leste", 626, "TL", "TLS"));
    v.push(row("Puerto Rico", 630, "PR", "PRI"));
    v.push(row("Qatar", 634, "QA", "QAT"));
    v.push(row("Reunion", 638, "RE", "REU"));
    v.push(row("Romania", 642, "RO", "ROU"));
    v.push(row("Russia", 643, "RU", "RUS"));
    v.push(row("Rwanda", 646, "RW", "RWA"));
    v.push(row("Saint Barthelemy", 652, "BL", "BLM"));
    v.push(row("Saint Helena, Ascension and Tristan da Cunha", 654, "SH", "SHN"));
    v.push(row("Saint Kitts and Nevis", 659, "KN", "KNA"));
    v.push(row("Anguilla", 660, "AI", "AIA"));
    v.push(row("Saint Lucia", 662, "LC", "LCA"));
    v.push(row("Saint Martin", 663, "MF", "MAF"));
    v.push(row("Saint Pierre and Miquelon", 666, "PM", "SPM"));
    v.push(row("Saint Vincent and the Grenadines", 670, "VC", "VCT"));
    v.push(row("San Marino", 674, "SM", "SMR"));
    v.push(row("Sao Tome and Principe", 678, "ST", "STP"));
    v.push(row("Saudi Arabia", 682, "SA", "SAU"));
    v.push(row("Senegal", 686, "SN", "SEN"));
    v.push(row("Serbia", 688, "RS", "SRB"));
    v.push(row("Seychelles", 690, "SC", "SYC"));
}

fn rows_e(v: &mut Vec<RawEntry>) {
    v.push(row("Sierra Leone", 694, "SL", "SLE"));
    v.push(row("Singapore", 702, "SG", "SGP"));
    v.push(row("Slovakia", 703, "SK", "SVK"));
    v.push(row("Viet Nam", 704, "VN", "VNM"));
    v.push(row("Slovenia", 705, "SI", "SVN"));
    v.push(row("Somalia", 706, "SO", "SOM"));
    v.push(row("South Africa", 710, "ZA", "ZAF"));
    v.push(row("Zimbabwe", 716, "ZW", "ZWE"));
    v.push(row("Spain", 724, "ES", "ESP"));
    v.push(row("South Sudan", 728, "SS", "SSD"));
    v.push(row("Sudan", 729, "SD", "SDN"));
    v.push(row("Western Sahara", 732, "EH", "ESH"));
    v.push(row("Suriname", 740, "SR", "SUR"));
    v.push(row("Svalbard and Jan Mayen", 744, "SJ", "SJM"));
    v.push(row("Eswatini", 748, "SZ", "SWZ"));
    v.push(row("Sweden", 752, "SE", "SWE"));
    v.push(row("Switzerland", 756, "CH", "CHE"));
    v.push(row("Syria", 760, "SY", "SYR"));
    v.push(row("Tajikistan", 762, "TJ", "TJK"));
    v.push(row("Thailand", 764, "TH", "THA"));
    v.push(row("Togo", 768, "TG", "TGO"));
    v.push(row("Tokelau", 772, "TK", "TKL"));
    v.push(row("Tonga", 776, "TO", "TON"));
    v.push(row("Trinidad and Tobago", 780, "TT", "TTO"));
    v.push(row("United Arab Emirates", 784, "AE", "ARE"));
    v.push(row("Tunisia", 788, "TN", "TUN"));
    v.push(row("Turkey", 792, "TR", "TUR"));
    v.push(row("Turkmenistan", 795, "TM", "TKM"));
    v.push(row("Turks and Caicos Islands", 796, "TC", "TCA"));
    v.push(row("Tuvalu", 798, "TV", "TUV"));
    v.push(row("Uganda", 800, "UG", "UGA"));
    v.push(row("Ukraine", 804, "UA", "UKR"));
    v.push(row("North Macedonia", 807, "MK", "MKD"));
    v.push(row("Egypt", 818, "EG", "EGY"));
    v.push(row("United Kingdom", 826, "GB", "GBR"));
    v.push(row("Guernsey", 831, "GG", "GGY"));
    v.push(row("Jersey", 832, "JE", "JEY"));
    v.push(row("Isle of Man", 833, "IM", "IMN"));
    v.push(row("Tanzania", 834, "TZ", "TZA"));
    v.push(row("United States of America", 840, "US", "USA"));
    v.push(row("Virgin Islands (U.S.)", 850, "VI", "VIR"));
    v.push(row("Burkina Faso", 854, "BF", "BFA"));
    v.push(row("Uruguay", 858, "UY", "URY"));
    v.push(row("Uzbekistan", 860, "UZ", "UZB"));
    v.push(row("Venezuela", 862, "VE", "VEN"));
    v.push(row("Wallis and Futuna", 876, "WF", "WLF"));
    v.push(row("Samoa", 882, "WS", "WSM"));
    v.push(row("Yemen", 887, "YE", "YEM"));
    v.push(row("Zambia", 894, "ZM", "ZMB"));
}

/// The standard country assignments, ordered by numeric code.
///
/// The content of this table is the external collaborator's: nothing
/// is stated about it here, and [`crate::registry::Registry::build`]
/// validates every tuple when the registry is assembled.
pub fn dataset() -> Vec<RawEntry> {
    let mut v: Vec<RawEntry> = Vec::new();
    rows_a(&mut v);
    rows_b(&mut v);
    rows_c(&mut v);
    rows_d(&mut v);
    rows_e(&mut v);
    v
}

} // verus!
